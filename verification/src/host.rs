//! The host: its identity, its one-time pairing code, and the decisions of
//! the connection handshake (hello, authentication, consent).
use vstd::prelude::*;
use crate::config::{is_joined, trusts, AuditLogger, Config, ConfigManager, TrustedDevice};
use crate::keys::{
    base64_decode, base64_decoding, base64_encode, base64_encoding, ed25519_point_valid,
    ed25519_strictly_verifies, fingerprint_of, get_fingerprint, key_bytes_from_text,
    parse_verifying_key, CoreError,
};
use crate::protocol::{Capability, ClientToHost, HostToClient};
use crate::rendezvous::{instant_now, nanos_since};
use std::time::Instant;
use crate::text::{byte_len, chars_of, string_from, string_push, trim_text, trimmed};
use rand::Rng;

verus! {

/// How the host is run.
#[derive(Debug, Clone)]
pub struct HostOptions {
    pub listen_addr: String,
    pub name: Option<String>,
    pub shell: Option<String>,
    /// No interactive consent: only trusted devices may connect.
    pub headless: bool,
    /// Trusted devices may authenticate with their key instead of a
    /// pairing code and consent.
    pub allow_trusted: bool,
    pub config_path: Option<String>,
    pub rendezvous: Option<String>,
}

/// A host that accepts remote terminal sessions.
pub struct Host {
    options: HostOptions,
    config_manager: ConfigManager,
    config: Config,
    audit_logger: AuditLogger,
    pairing_code: String,
    /// The pairing code has been checked once and can no longer be used.
    code_spent: bool,
    /// When the host was made; its pairing code expires five minutes later.
    origin: Instant,
}

/// How long a host's pairing code lives, in nanoseconds: five minutes.
pub open spec fn pairing_code_ttl_nanos() -> u128 {
    300_000_000_000
}

/// The six-digit, zero-padded decimal text of a pairing number.
pub open spec fn pairing_code_text(n: nat) -> Seq<char> {
    Seq::new(6, |i: int| (48 + (n / pow10((5 - i) as nat)) % 10) as char)
}

/// Ten to the power `k`.
pub open spec fn pow10(k: nat) -> nat
    decreases k,
{
    if k == 0 {
        1
    } else {
        10 * pow10((k - 1) as nat)
    }
}

/// Renders a pairing number below one million as six digits.
pub fn format_pairing_code(n: u32) -> (r: String)
    requires
        n < 1000000,
    ensures
        r@ == pairing_code_text(n as nat),
{
    let mut r = String::new();
    let mut div: u32 = 100000;
    let mut k: usize = 0;
    proof {
        reveal_with_fuel(pow10, 7);
    }
    while k < 6
        invariant
            k <= 6,
            div as nat == pow10((5 - k) as nat) || (k == 6 && div == 0),
            n < 1000000,
            r@ == pairing_code_text(n as nat).take(k as int),
        decreases 6 - k,
    {
        proof {
            reveal_with_fuel(pow10, 7);
        }
        let d: u32 = (n / div) % 10;
        string_push(&mut r, ((48 + d) as u8) as char);
        assert(r@ =~= pairing_code_text(n as nat).take(k + 1));
        div = div / 10;
        k = k + 1;
    }
    assert(pairing_code_text(n as nat).take(6) =~= pairing_code_text(n as nat));
    r
}

/// `rand::Rng::gen_range(0..1000000)` on the thread's random generator.
#[verifier::external_body]
fn random_pairing_number() -> (r: u32)
    ensures
        r < 1000000,
{
    rand::thread_rng().gen_range(0..1000000u32)
}

/// `rand::Rng::gen::<[u8; 32]>()` on the thread's random generator.
#[verifier::external_body]
fn random_challenge() -> (r: Vec<u8>)
    ensures
        r@.len() == 32,
{
    rand::thread_rng().gen::<[u8; 32]>().to_vec()
}

/// What the host learns of a client from its hello.
#[derive(Debug)]
pub struct ClientHandshakeInfo {
    pub version: String,
    pub name: String,
    pub public_key: Vec<u8>,
    pub capabilities: Vec<Capability>,
    pub fingerprint: String,
}

/// Where the host stands in the handshake with one client.
#[derive(Debug)]
pub enum HandshakeState {
    AwaitHello,
    /// A trusted device must sign the challenge with its key.
    AwaitChallengeResponse {
        client: ClientHandshakeInfo,
        client_key_b64: String,
        challenge: Vec<u8>,
    },
    /// Another device must give the host's pairing code.
    AwaitPairingCode { client: ClientHandshakeInfo, client_key_b64: String },
    /// The operator must approve the device.
    AwaitConsent { client: ClientHandshakeInfo, client_key_b64: String },
    Accepted { client: ClientHandshakeInfo },
    /// The client was refused; its fingerprint where its hello gave one.
    Denied { fingerprint: Option<String> },
    /// The handshake broke off (malformed key material, or a failure of
    /// the connection or the terminal); the client's fingerprint where its
    /// hello gave one.
    Failed { reason: String, fingerprint: Option<String> },
}

/// The fingerprint of the client a state knows of, if any.
pub open spec fn state_fingerprint(state: HandshakeState) -> Option<String> {
    match state {
        HandshakeState::AwaitHello => None,
        HandshakeState::AwaitChallengeResponse { client, .. } => Some(client.fingerprint),
        HandshakeState::AwaitPairingCode { client, .. } => Some(client.fingerprint),
        HandshakeState::AwaitConsent { client, .. } => Some(client.fingerprint),
        HandshakeState::Accepted { client } => Some(client.fingerprint),
        HandshakeState::Denied { fingerprint } => fingerprint,
        HandshakeState::Failed { fingerprint, .. } => fingerprint,
    }
}

impl HandshakeState {
    /// The handshake broken off for the given reason, keeping the client's
    /// fingerprint where it is known.
    pub fn break_off(self, reason: String) -> (r: HandshakeState)
        ensures
            r == (HandshakeState::Failed { reason, fingerprint: state_fingerprint(self) }),
    {
        let fingerprint = match self {
            HandshakeState::AwaitHello => None,
            HandshakeState::AwaitChallengeResponse { client, .. } => Some(client.fingerprint),
            HandshakeState::AwaitPairingCode { client, .. } => Some(client.fingerprint),
            HandshakeState::AwaitConsent { client, .. } => Some(client.fingerprint),
            HandshakeState::Accepted { client } => Some(client.fingerprint),
            HandshakeState::Denied { fingerprint } => fingerprint,
            HandshakeState::Failed { fingerprint, .. } => fingerprint,
        };
        HandshakeState::Failed { reason, fingerprint }
    }
}

/// Whether the operator's answer to the consent prompt approves the
/// client: the answer, trimmed, is `y` in either case.
pub open spec fn approves(answer: Seq<char>) -> bool {
    trimmed(answer) == seq!['y'] || trimmed(answer) == seq!['Y']
}

/// Reads the operator's answer to the consent prompt.
pub fn consent_approved(answer: &str) -> (r: bool)
    ensures
        r == approves(answer@),
{
    let t = trim_text(answer);
    let cs = chars_of(t.as_str());
    let r = cs.len() == 1 && (cs[0] == 'y' || cs[0] == 'Y');
    proof {
        if cs@.len() == 1 {
            if cs@[0] == 'y' {
                assert(cs@ =~= seq!['y']);
            }
            if cs@[0] == 'Y' {
                assert(cs@ =~= seq!['Y']);
            }
        }
    }
    r
}

/// What happens next on the connection.
#[derive(Debug)]
pub enum HandshakeEvent {
    Message(ClientToHost),
    /// The transport failed or delivered something that is no message.
    ReceiveFailed,
    /// The operator's answer to the consent prompt.
    Consent { approved: bool },
}

/// What the host does in reply.
#[derive(Debug)]
pub enum HostAction {
    Send(HostToClient),
    /// Ask the operator whether the device may open a terminal session.
    PromptConsent { client_name: String, fingerprint: String },
    /// Persist the configuration (the trusted list changed).
    SaveConfig,
}

/// The capabilities the host announces.
pub open spec fn host_capabilities() -> Seq<Capability> {
    seq![Capability::TerminalPty, Capability::TerminalResize, Capability::DesktopStreaming]
}

/// `a` sends the host's hello acknowledgement.
pub open spec fn is_hello_ack(a: HostAction, host_name: Seq<char>, host_key: Seq<u8>) -> bool {
    a matches HostAction::Send(
        HostToClient::HelloAck { protocol_version, host_name: n, host_public_key, capabilities },
    ) && protocol_version@ == "1.0"@ && n@ == host_name && host_public_key@ == host_key
        && capabilities@ == host_capabilities()
}

/// `a` sends an authentication request with the given challenge bytes.
pub open spec fn is_auth_request(a: HostAction, challenge: Seq<u8>) -> bool {
    a matches HostAction::Send(HostToClient::AuthRequired { challenge: c }) && c@ == challenge
}

/// The actions are exactly one denial with the given reason.
pub open spec fn denies(actions: Seq<HostAction>, reason: Seq<char>) -> bool {
    &&& actions.len() == 1
    &&& actions[0] matches HostAction::Send(HostToClient::AuthDenied { reason: r }) && r@ == reason
}

/// `a` accepts the client.
pub open spec fn is_accept(a: HostAction) -> bool {
    a matches HostAction::Send(HostToClient::AuthAccepted)
}

/// The actions accept the client.
pub open spec fn accepts(actions: Seq<HostAction>) -> bool {
    exists|i: int| 0 <= i < actions.len() && is_accept(#[trigger] actions[i])
}

/// The client record built from a hello.
pub open spec fn info_from_hello(
    info: ClientHandshakeInfo,
    version: String,
    name: String,
    key: Vec<u8>,
    capabilities: Vec<Capability>,
) -> bool {
    &&& info.version == version
    &&& info.name == name
    &&& info.public_key == key
    &&& info.capabilities == capabilities
    &&& info.fingerprint@ == fingerprint_of(base64_encoding(key@))
}

impl Host {
    /// The devices the host trusts.
    pub closed spec fn trusted_list(&self) -> Seq<TrustedDevice> {
        self.config.trusted_devices@
    }

    /// Whether the host runs without interactive consent.
    pub closed spec fn is_headless(&self) -> bool {
        self.options.headless
    }

    /// Whether trusted devices may authenticate with their key.
    pub closed spec fn allows_trusted(&self) -> bool {
        self.options.allow_trusted
    }

    /// The host's one-time pairing code.
    pub closed spec fn code(&self) -> Seq<char> {
        self.pairing_code@
    }

    /// The host's options.
    pub closed spec fn options_view(&self) -> HostOptions {
        self.options
    }

    /// The host's configuration.
    pub closed spec fn config_view(&self) -> Config {
        self.config
    }

    /// Where the host's configuration is kept.
    pub closed spec fn manager_view(&self) -> ConfigManager {
        self.config_manager
    }

    /// The host's audit log.
    pub closed spec fn logger_view(&self) -> AuditLogger {
        self.audit_logger
    }

    /// The pairing code has been checked and can no longer be used.
    pub closed spec fn code_spent(&self) -> bool {
        self.code_spent
    }

    /// The host with its pairing code used up.
    pub closed spec fn spent(self) -> Host {
        Host { code_spent: true, ..self }
    }

    /// Both hosts agree in all but their trusted lists and whether the
    /// pairing code was used up.
    pub closed spec fn same_identity(&self, other: Host) -> bool {
        &&& self.options == other.options
        &&& self.origin == other.origin
        &&& self.config_manager == other.config_manager
        &&& self.audit_logger == other.audit_logger
        &&& self.pairing_code == other.pairing_code
        &&& self.config.device_name == other.config.device_name
        &&& self.config.private_key == other.config.private_key
        &&& self.config.public_key == other.config.public_key
    }

    /// Both hosts agree in all but their trusted lists.
    pub closed spec fn same_but_trust(&self, other: Host) -> bool {
        &&& self.same_identity(other)
        &&& self.code_spent == other.code_spent
    }

    /// A host from its parts and a pairing number below one million.
    pub fn from_parts(
        options: HostOptions,
        config_manager: ConfigManager,
        config: Config,
        pairing_number: u32,
    ) -> (r: Host)
        requires
            pairing_number < 1000000,
        ensures
            r.options_view() == options,
            r.config_view() == config,
            r.manager_view() == config_manager,
            is_joined(r.logger_view().path_text(), config_manager.dir_text(), "session_audit.log"@),
            r.code() == pairing_code_text(pairing_number as nat),
            !r.code_spent(),
    {
        let audit_logger = AuditLogger::new(config_manager.config_dir());
        let pairing_code = format_pairing_code(pairing_number);
        let origin = instant_now();
        Host { options, config_manager, config, audit_logger, pairing_code, code_spent: false, origin }
    }

    /// A host with a fresh random six-digit pairing code.
    pub fn new(options: HostOptions, config_manager: ConfigManager, config: Config) -> (r: Host)
        ensures
            r.options_view() == options,
            r.config_view() == config,
            r.manager_view() == config_manager,
            is_joined(r.logger_view().path_text(), config_manager.dir_text(), "session_audit.log"@),
            exists|n: nat| n < 1000000 && r.code() == pairing_code_text(n),
            !r.code_spent(),
    {
        let n = random_pairing_number();
        Host::from_parts(options, config_manager, config, n)
    }

    /// The pairing code that untrusted clients must give.
    pub fn pairing_code(&self) -> (r: &str)
        ensures
            r@ == self.code(),
    {
        self.pairing_code.as_str()
    }

    /// The configuration, with the trusted list as it now stands.
    pub fn config(&self) -> (r: &Config)
        ensures
            *r == self.config_view(),
    {
        &self.config
    }

    /// The options the host runs with.
    pub fn options(&self) -> (r: &HostOptions)
        ensures
            *r == self.options_view(),
    {
        &self.options
    }

    /// Where the configuration is kept.
    pub fn config_manager(&self) -> (r: &ConfigManager)
        ensures
            *r == self.manager_view(),
    {
        &self.config_manager
    }

    /// The audit log.
    pub fn audit_logger(&self) -> (r: &AuditLogger)
        ensures
            *r == self.logger_view(),
    {
        &self.audit_logger
    }

    /// The name the host announces: the configured name, else the device
    /// name.
    pub fn display_name(&self) -> (r: String)
        ensures
            r@ == match self.options_view().name {
                Some(n) => n@,
                None => self.config_view().device_name@,
            },
    {
        match &self.options.name {
            Some(n) => string_from(n.as_str()),
            None => string_from(self.config.device_name.as_str()),
        }
    }

    /// The bytes of the host's public key, read from its Base64 text.
    pub fn public_key_bytes(&self) -> (r: Result<Vec<u8>, String>)
        ensures
            match r {
                Ok(bytes) => base64_decoding(self.config_view().public_key@) == Some(bytes@),
                Err(_) => base64_decoding(self.config_view().public_key@) is None,
            },
    {
        base64_decode(self.config.public_key.as_str())
    }

    /// One step of the handshake at `now_nanos` nanoseconds after the host
    /// was made, with the challenge that the host issues to a trusted
    /// device.
    pub fn handshake_transition(
        &mut self,
        state: HandshakeState,
        event: HandshakeEvent,
        host_name: &str,
        host_public_key: &[u8],
        challenge: &[u8],
        now_nanos: u128,
    ) -> (r: (HandshakeState, Vec<HostAction>))
        ensures
            handshake_next(
                *old(self),
                state,
                event,
                host_name@,
                host_public_key@,
                challenge@,
                now_nanos,
                *final(self),
                r.0,
                r.1@,
            ),
    {
        match state {
            HandshakeState::AwaitHello => match event {
                HandshakeEvent::Message(
                    ClientToHost::Hello {
                        protocol_version,
                        client_name,
                        client_public_key,
                        capabilities,
                    },
                ) => {
                    let _ = byte_len(client_public_key.as_slice());
                    let key_b64 = base64_encode(client_public_key.as_slice());
                    let fp = get_fingerprint(key_b64.as_str());
                    let client = ClientHandshakeInfo {
                        version: protocol_version,
                        name: client_name,
                        public_key: client_public_key,
                        capabilities,
                        fingerprint: fp,
                    };
                    let mut actions: Vec<HostAction> = Vec::new();
                    actions.push(
                        HostAction::Send(
                            HostToClient::HelloAck {
                                protocol_version: string_from("1.0"),
                                host_name: string_from(host_name),
                                host_public_key: vstd::slice::slice_to_vec(host_public_key),
                                capabilities: announced_capabilities(),
                            },
                        ),
                    );
                    let trusted = self.config.is_trusted(client.fingerprint.as_str());
                    if trusted && self.options.allow_trusted {
                        actions.push(
                            HostAction::Send(
                                HostToClient::AuthRequired {
                                    challenge: vstd::slice::slice_to_vec(challenge),
                                },
                            ),
                        );
                        (
                            HandshakeState::AwaitChallengeResponse {
                                client,
                                client_key_b64: key_b64,
                                challenge: vstd::slice::slice_to_vec(challenge),
                            },
                            actions,
                        )
                    } else {
                        actions.push(
                            HostAction::Send(HostToClient::AuthRequired { challenge: Vec::new() }),
                        );
                        (
                            HandshakeState::AwaitPairingCode { client, client_key_b64: key_b64 },
                            actions,
                        )
                    }
                },
                _ => (HandshakeState::Denied { fingerprint: None }, Vec::new()),
            },
            HandshakeState::AwaitChallengeResponse { client, client_key_b64, challenge: issued } => {
                match event {
                    HandshakeEvent::Message(ClientToHost::ChallengeResponse { signature }) => {
                        match parse_verifying_key(client_key_b64.as_str()) {
                            Err(_) => (
                                HandshakeState::Failed {
                                    reason: string_from("invalid client public key"),
                                    fingerprint: Some(client.fingerprint),
                                },
                                Vec::new(),
                            ),
                            Ok(key) => {
                                if signature.len() != 64 {
                                    (
                                        HandshakeState::Failed {
                                            reason: string_from("malformed signature"),
                                            fingerprint: Some(client.fingerprint),
                                        },
                                        Vec::new(),
                                    )
                                } else if key.verify_strict(
                                    issued.as_slice(),
                                    signature.as_slice(),
                                ) {
                                    let mut actions: Vec<HostAction> = Vec::new();
                                    actions.push(HostAction::Send(HostToClient::AuthAccepted));
                                    (HandshakeState::Accepted { client }, actions)
                                } else {
                                    (
                                        HandshakeState::Denied {
                                            fingerprint: Some(client.fingerprint),
                                        },
                                        deny(
                                            string_from(
                                                "Cryptographic signature verification failed",
                                            ),
                                        ),
                                    )
                                }
                            },
                        }
                    },
                    _ => (
                        HandshakeState::Denied { fingerprint: Some(client.fingerprint) },
                        deny(string_from("Challenge response expected")),
                    ),
                }
            },
            HandshakeState::AwaitPairingCode { client, client_key_b64 } => match event {
                HandshakeEvent::Message(ClientToHost::PairingCode { code }) => {
                    let live = !self.code_spent && now_nanos < 300_000_000_000;
                    self.code_spent = true;
                    if !live || !(code == self.pairing_code) {
                        (
                            HandshakeState::Denied { fingerprint: Some(client.fingerprint) },
                            deny(string_from("Invalid pairing code")),
                        )
                    } else if self.options.headless {
                        (
                            HandshakeState::Denied { fingerprint: Some(client.fingerprint) },
                            deny(string_from("Host is headless and this device is not trusted.")),
                        )
                    } else {
                        let mut actions: Vec<HostAction> = Vec::new();
                        actions.push(
                            HostAction::PromptConsent {
                                client_name: string_from(client.name.as_str()),
                                fingerprint: string_from(client.fingerprint.as_str()),
                            },
                        );
                        (HandshakeState::AwaitConsent { client, client_key_b64 }, actions)
                    }
                },
                _ => (
                    HandshakeState::Denied { fingerprint: Some(client.fingerprint) },
                    deny(string_from("Pairing code expected")),
                ),
            },
            HandshakeState::AwaitConsent { client, client_key_b64 } => match event {
                HandshakeEvent::Consent { approved } => {
                    if approved {
                        let device = TrustedDevice {
                            name: string_from(client.name.as_str()),
                            fingerprint: string_from(client.fingerprint.as_str()),
                            public_key: client_key_b64,
                        };
                        self.config.add_trusted(device);
                        assert(self.config.trusted_devices@.drop_last()
                            =~= old(self).config.trusted_devices@);
                        let mut actions: Vec<HostAction> = Vec::new();
                        actions.push(HostAction::SaveConfig);
                        actions.push(HostAction::Send(HostToClient::AuthAccepted));
                        (HandshakeState::Accepted { client }, actions)
                    } else {
                        (
                            HandshakeState::Denied { fingerprint: Some(client.fingerprint) },
                            deny(string_from("Denied by host operator")),
                        )
                    }
                },
                other => (HandshakeState::AwaitConsent { client, client_key_b64 }, Vec::new()),
            },
            other => (other, Vec::new()),
        }
    }

    /// One step of the handshake, now: a fresh random challenge is at hand
    /// for a trusted device, and the host's clock tells whether its pairing
    /// code has expired.
    pub fn handshake_step(
        &mut self,
        state: HandshakeState,
        event: HandshakeEvent,
        host_name: &str,
        host_public_key: &[u8],
    ) -> (r: (HandshakeState, Vec<HostAction>))
        ensures
            exists|challenge: Seq<u8>, now_nanos: u128|
                challenge.len() == 32 && handshake_next(
                    *old(self),
                    state,
                    event,
                    host_name@,
                    host_public_key@,
                    challenge,
                    now_nanos,
                    *final(self),
                    r.0,
                    r.1@,
                ),
    {
        let challenge = random_challenge();
        let now = nanos_since(&self.origin);
        self.handshake_transition(state, event, host_name, host_public_key, challenge.as_slice(), now)
    }
}

fn announced_capabilities() -> (r: Vec<Capability>)
    ensures
        r@ == host_capabilities(),
{
    let mut r: Vec<Capability> = Vec::new();
    r.push(Capability::TerminalPty);
    r.push(Capability::TerminalResize);
    r.push(Capability::DesktopStreaming);
    assert(r@ =~= host_capabilities());
    r
}

fn deny(reason: String) -> (r: Vec<HostAction>)
    ensures
        denies(r@, reason@),
{
    let mut r: Vec<HostAction> = Vec::new();
    r.push(HostAction::Send(HostToClient::AuthDenied { reason }));
    r
}

/// The host's pairing code can be used at `now_nanos` nanoseconds after
/// the host was made: it was not checked before and has not expired.
pub open spec fn code_live(host: Host, now_nanos: u128) -> bool {
    !host.code_spent() && now_nanos < pairing_code_ttl_nanos()
}

/// The client was refused, with its fingerprint recorded.
pub open spec fn denied_client(state: HandshakeState, client: ClientHandshakeInfo) -> bool {
    state == (HandshakeState::Denied { fingerprint: Some(client.fingerprint) })
}

/// The handshake broke off, with the client's fingerprint recorded.
pub open spec fn failed_client(state: HandshakeState, client: ClientHandshakeInfo) -> bool {
    state matches HandshakeState::Failed { fingerprint, .. } && fingerprint == Some(
        client.fingerprint,
    )
}

/// The handshake, one step at a time: from the host and its state, on an
/// event at `now_nanos` nanoseconds after the host was made, to the host
/// (its trusted list may grow, its pairing code may be used up), the next
/// state, and the actions that carry it out. `challenge` is what a trusted
/// device is asked to sign.
pub open spec fn handshake_next(
    host: Host,
    state: HandshakeState,
    event: HandshakeEvent,
    host_name: Seq<char>,
    host_key: Seq<u8>,
    challenge: Seq<u8>,
    now_nanos: u128,
    host2: Host,
    state2: HandshakeState,
    actions: Seq<HostAction>,
) -> bool {
    match state {
        HandshakeState::AwaitHello => match event {
            HandshakeEvent::Message(
                ClientToHost::Hello { protocol_version, client_name, client_public_key, capabilities },
            ) => {
                let key_text = base64_encoding(client_public_key@);
                let fp = fingerprint_of(key_text);
                &&& host2 == host
                &&& actions.len() == 2
                &&& is_hello_ack(actions[0], host_name, host_key)
                &&& if trusts(host.trusted_list(), fp) && host.allows_trusted() {
                    &&& is_auth_request(actions[1], challenge)
                    &&& state2 matches HandshakeState::AwaitChallengeResponse {
                        client,
                        client_key_b64,
                        challenge: c,
                    } && info_from_hello(
                        client,
                        protocol_version,
                        client_name,
                        client_public_key,
                        capabilities,
                    ) && client_key_b64@ == key_text && c@ == challenge
                } else {
                    &&& is_auth_request(actions[1], Seq::empty())
                    &&& state2 matches HandshakeState::AwaitPairingCode { client, client_key_b64 }
                        && info_from_hello(
                        client,
                        protocol_version,
                        client_name,
                        client_public_key,
                        capabilities,
                    ) && client_key_b64@ == key_text
                }
            },
            _ => host2 == host && state2 == (HandshakeState::Denied { fingerprint: None })
                && actions.len() == 0,
        },
        HandshakeState::AwaitChallengeResponse { client, client_key_b64, challenge: issued } => {
            &&& host2 == host
            &&& match event {
                HandshakeEvent::Message(ClientToHost::ChallengeResponse { signature }) => {
                    match key_bytes_from_text(client_key_b64@) {
                        Some(key) => if !ed25519_point_valid(key) || signature@.len() != 64 {
                            failed_client(state2, client) && actions.len() == 0
                        } else if ed25519_strictly_verifies(key, issued@, signature@) {
                            state2 == (HandshakeState::Accepted { client }) && actions.len() == 1
                                && is_accept(actions[0])
                        } else {
                            denied_client(state2, client) && denies(
                                actions,
                                "Cryptographic signature verification failed"@,
                            )
                        },
                        None => failed_client(state2, client) && actions.len() == 0,
                    }
                },
                _ => denied_client(state2, client) && denies(
                    actions,
                    "Challenge response expected"@,
                ),
            }
        },
        HandshakeState::AwaitPairingCode { client, client_key_b64 } => match event {
            HandshakeEvent::Message(ClientToHost::PairingCode { code }) => {
                &&& host2 == host.spent()
                &&& if !code_live(host, now_nanos) || code@ != host.code() {
                    denied_client(state2, client) && denies(actions, "Invalid pairing code"@)
                } else if host.is_headless() {
                    denied_client(state2, client) && denies(
                        actions,
                        "Host is headless and this device is not trusted."@,
                    )
                } else {
                    &&& state2 == (HandshakeState::AwaitConsent { client, client_key_b64 })
                    &&& actions.len() == 1
                    &&& actions[0] matches HostAction::PromptConsent { client_name, fingerprint }
                        && client_name@ == client.name@ && fingerprint@ == client.fingerprint@
                }
            },
            _ => host2 == host && denied_client(state2, client) && denies(
                actions,
                "Pairing code expected"@,
            ),
        },
        HandshakeState::AwaitConsent { client, client_key_b64 } => match event {
            HandshakeEvent::Consent { approved } => if approved {
                &&& host2.same_but_trust(host)
                &&& host2.trusted_list().len() == host.trusted_list().len() + 1
                &&& host2.trusted_list().drop_last() == host.trusted_list()
                &&& host2.trusted_list().last().name@ == client.name@
                &&& host2.trusted_list().last().fingerprint@ == client.fingerprint@
                &&& host2.trusted_list().last().public_key == client_key_b64
                &&& state2 == (HandshakeState::Accepted { client })
                &&& actions.len() == 2
                &&& actions[0] is SaveConfig
                &&& is_accept(actions[1])
            } else {
                host2 == host && denied_client(state2, client) && denies(
                    actions,
                    "Denied by host operator"@,
                )
            },
            _ => host2 == host && state2 == (HandshakeState::AwaitConsent { client, client_key_b64 })
                && actions.len() == 0,
        },
        _ => host2 == host && state2 == state && actions.len() == 0,
    }
}

/// The event answers the pending challenge with a signature that verifies
/// strictly under the client's key.
pub open spec fn signed_challenge(state: HandshakeState, event: HandshakeEvent) -> bool {
    state matches HandshakeState::AwaitChallengeResponse { client_key_b64, challenge: issued, .. }
        && event matches HandshakeEvent::Message(ClientToHost::ChallengeResponse { signature })
        && key_bytes_from_text(client_key_b64@) matches Some(key) && ed25519_strictly_verifies(
        key,
        issued@,
        signature@,
    )
}

/// The state awaits the signature of a device that the host trusts.
pub open spec fn challenged_key_trusted(host: Host, state: HandshakeState) -> bool {
    state matches HandshakeState::AwaitChallengeResponse { client_key_b64, .. } && trusts(
        host.trusted_list(),
        fingerprint_of(client_key_b64@),
    )
}

/// A client is accepted only after it has proved itself: a trusted device
/// by a valid signature of the challenge the host issued, any other device
/// by the operator's consent.
pub proof fn law_accept_only_after_authentication(
    host: Host,
    state: HandshakeState,
    event: HandshakeEvent,
    host_name: Seq<char>,
    host_key: Seq<u8>,
    challenge: Seq<u8>,
    now_nanos: u128,
    host2: Host,
    state2: HandshakeState,
    actions: Seq<HostAction>,
)
    requires
        handshake_next(
            host,
            state,
            event,
            host_name,
            host_key,
            challenge,
            now_nanos,
            host2,
            state2,
            actions,
        ),
        accepts(actions),
    ensures
        signed_challenge(state, event) || (state is AwaitConsent && event == (
        HandshakeEvent::Consent { approved: true })),
        state2 is Accepted,
{
    let i = choose|i: int| 0 <= i < actions.len() && is_accept(#[trigger] actions[i]);
    assert(is_accept(actions[i]));
}

/// The operator is asked for consent only after the client gave the right
/// pairing code, while it was still live, to a host that is not headless;
/// the code is used up by that check.
pub proof fn law_consent_requires_pairing_code(
    host: Host,
    state: HandshakeState,
    event: HandshakeEvent,
    host_name: Seq<char>,
    host_key: Seq<u8>,
    challenge: Seq<u8>,
    now_nanos: u128,
    host2: Host,
    state2: HandshakeState,
    actions: Seq<HostAction>,
)
    requires
        handshake_next(
            host,
            state,
            event,
            host_name,
            host_key,
            challenge,
            now_nanos,
            host2,
            state2,
            actions,
        ),
        state2 is AwaitConsent,
        !(state is AwaitConsent),
    ensures
        state is AwaitPairingCode,
        event matches HandshakeEvent::Message(ClientToHost::PairingCode { code }) && code@
            == host.code(),
        code_live(host, now_nanos),
        !host.is_headless(),
        host2.code_spent(),
        actions.len() == 1 && actions[0] is PromptConsent,
{
}

/// A challenge is issued only to a device on the host's trusted list, and
/// only where the host lets trusted devices authenticate with their key.
pub proof fn law_challenge_only_for_trusted_devices(
    host: Host,
    state: HandshakeState,
    event: HandshakeEvent,
    host_name: Seq<char>,
    host_key: Seq<u8>,
    challenge: Seq<u8>,
    now_nanos: u128,
    host2: Host,
    state2: HandshakeState,
    actions: Seq<HostAction>,
)
    requires
        handshake_next(
            host,
            state,
            event,
            host_name,
            host_key,
            challenge,
            now_nanos,
            host2,
            state2,
            actions,
        ),
        state2 is AwaitChallengeResponse,
        !(state is AwaitChallengeResponse),
    ensures
        state is AwaitHello,
        host.allows_trusted(),
        event matches HandshakeEvent::Message(ClientToHost::Hello { client_public_key, .. })
            && trusts(host.trusted_list(), fingerprint_of(base64_encoding(client_public_key@))),
{
}

/// A headless host never asks its operator: it neither prompts nor waits
/// for consent.
pub proof fn law_headless_host_never_prompts(
    host: Host,
    state: HandshakeState,
    event: HandshakeEvent,
    host_name: Seq<char>,
    host_key: Seq<u8>,
    challenge: Seq<u8>,
    now_nanos: u128,
    host2: Host,
    state2: HandshakeState,
    actions: Seq<HostAction>,
)
    requires
        handshake_next(
            host,
            state,
            event,
            host_name,
            host_key,
            challenge,
            now_nanos,
            host2,
            state2,
            actions,
        ),
        host.is_headless(),
    ensures
        forall|i: int| 0 <= i < actions.len() ==> !(#[trigger] actions[i] is PromptConsent),
        state2 is AwaitConsent ==> state is AwaitConsent,
{
}

/// The trusted list changes only when the operator approves a device, and
/// then by that one device only; a used-up pairing code stays used up; and
/// nothing else about the host changes.
pub proof fn law_trust_grows_only_by_consent(
    host: Host,
    state: HandshakeState,
    event: HandshakeEvent,
    host_name: Seq<char>,
    host_key: Seq<u8>,
    challenge: Seq<u8>,
    now_nanos: u128,
    host2: Host,
    state2: HandshakeState,
    actions: Seq<HostAction>,
)
    requires
        handshake_next(
            host,
            state,
            event,
            host_name,
            host_key,
            challenge,
            now_nanos,
            host2,
            state2,
            actions,
        ),
    ensures
        host2.same_identity(host),
        host.code_spent() ==> host2.code_spent(),
        host2.trusted_list() == host.trusted_list() || (state is AwaitConsent
            && event == (HandshakeEvent::Consent { approved: true })
            && host2.trusted_list().drop_last() == host.trusted_list()
            && host2.trusted_list().len() == host.trusted_list().len() + 1),
{
}

/// A step that refuses the client or breaks the handshake off accepts
/// nothing, asks nobody, saves nothing and leaves the trusted list as it
/// was.
pub proof fn law_refusal_changes_no_trust(
    host: Host,
    state: HandshakeState,
    event: HandshakeEvent,
    host_name: Seq<char>,
    host_key: Seq<u8>,
    challenge: Seq<u8>,
    now_nanos: u128,
    host2: Host,
    state2: HandshakeState,
    actions: Seq<HostAction>,
)
    requires
        handshake_next(
            host,
            state,
            event,
            host_name,
            host_key,
            challenge,
            now_nanos,
            host2,
            state2,
            actions,
        ),
        state2 is Denied || state2 is Failed,
    ensures
        host2.trusted_list() == host.trusted_list(),
        host2.same_identity(host),
        forall|i: int|
            0 <= i < actions.len() ==> !is_accept(#[trigger] actions[i]) && !(actions[i] is SaveConfig)
                && !(actions[i] is PromptConsent),
        actions.len() <= 1,
{
}

/// A handshake that does not open with `Hello` is refused at once, with
/// nothing sent to the client and nothing changed on the host.
pub proof fn law_first_message_must_be_hello(
    host: Host,
    event: HandshakeEvent,
    host_name: Seq<char>,
    host_key: Seq<u8>,
    challenge: Seq<u8>,
    now_nanos: u128,
    host2: Host,
    state2: HandshakeState,
    actions: Seq<HostAction>,
)
    requires
        handshake_next(
            host,
            HandshakeState::AwaitHello,
            event,
            host_name,
            host_key,
            challenge,
            now_nanos,
            host2,
            state2,
            actions,
        ),
        !(event matches HandshakeEvent::Message(ClientToHost::Hello { .. })),
    ensures
        state2 == (HandshakeState::Denied { fingerprint: None }),
        actions.len() == 0,
        host2 == host,
{
}

/// A wrong or no longer live pairing code is refused outright, and the
/// code is used up all the same.
pub proof fn law_wrong_pairing_code_denied(
    host: Host,
    state: HandshakeState,
    code: String,
    host_name: Seq<char>,
    host_key: Seq<u8>,
    challenge: Seq<u8>,
    now_nanos: u128,
    host2: Host,
    state2: HandshakeState,
    actions: Seq<HostAction>,
)
    requires
        handshake_next(
            host,
            state,
            HandshakeEvent::Message(ClientToHost::PairingCode { code }),
            host_name,
            host_key,
            challenge,
            now_nanos,
            host2,
            state2,
            actions,
        ),
        state is AwaitPairingCode,
        code@ != host.code() || !code_live(host, now_nanos),
    ensures
        state2 is Denied,
        denies(actions, "Invalid pairing code"@),
        host2 == host.spent(),
{
}

/// The host's pairing code is single-use: any check of a given code, right
/// or wrong, uses it up, and a check on a host whose code is used up is
/// refused.
pub proof fn law_host_pairing_code_single_use(
    host: Host,
    state: HandshakeState,
    event: HandshakeEvent,
    host_name: Seq<char>,
    host_key: Seq<u8>,
    challenge: Seq<u8>,
    now_nanos: u128,
    host2: Host,
    state2: HandshakeState,
    actions: Seq<HostAction>,
)
    requires
        handshake_next(
            host,
            state,
            event,
            host_name,
            host_key,
            challenge,
            now_nanos,
            host2,
            state2,
            actions,
        ),
        state is AwaitPairingCode,
        event matches HandshakeEvent::Message(ClientToHost::PairingCode { .. }),
    ensures
        host2.code_spent(),
        host.code_spent() ==> state2 is Denied,
{
}

/// The host's pairing code expires five minutes after the host was made:
/// a code given later is refused, whatever it is.
pub proof fn law_host_pairing_code_expires(
    host: Host,
    state: HandshakeState,
    event: HandshakeEvent,
    host_name: Seq<char>,
    host_key: Seq<u8>,
    challenge: Seq<u8>,
    now_nanos: u128,
    host2: Host,
    state2: HandshakeState,
    actions: Seq<HostAction>,
)
    requires
        handshake_next(
            host,
            state,
            event,
            host_name,
            host_key,
            challenge,
            now_nanos,
            host2,
            state2,
            actions,
        ),
        state is AwaitPairingCode,
        event matches HandshakeEvent::Message(ClientToHost::PairingCode { .. }),
        now_nanos >= pairing_code_ttl_nanos(),
    ensures
        state2 is Denied,
        denies(actions, "Invalid pairing code"@),
{
}

/// A run of the handshake from its start: the host, the state and the
/// actions of every step, for the events that arrived at the given times.
pub open spec fn handshake_run(
    hosts: Seq<Host>,
    states: Seq<HandshakeState>,
    events: Seq<HandshakeEvent>,
    times: Seq<u128>,
    actions: Seq<Seq<HostAction>>,
    host_name: Seq<char>,
    host_key: Seq<u8>,
    challenges: Seq<Seq<u8>>,
) -> bool {
    &&& hosts.len() == events.len() + 1
    &&& states.len() == events.len() + 1
    &&& times.len() == events.len()
    &&& actions.len() == events.len()
    &&& challenges.len() == events.len()
    &&& states[0] is AwaitHello
    &&& forall|i: int|
        0 <= i < events.len() ==> handshake_next(
            hosts[i],
            states[i],
            #[trigger] events[i],
            host_name,
            host_key,
            challenges[i],
            times[i],
            hosts[i + 1],
            states[i + 1],
            actions[i],
        )
}

/// The device is not one the host would let in by its key.
pub open spec fn untrusted_device(host: Host, client: ClientHandshakeInfo) -> bool {
    !(host.allows_trusted() && trusts(host.trusted_list(), client.fingerprint@))
}

/// A device waiting on the pairing code or on consent is not one the host
/// would let in by its key.
pub open spec fn pending_untrusted(host: Host, state: HandshakeState) -> bool {
    match state {
        HandshakeState::AwaitPairingCode { client, .. } => untrusted_device(host, client),
        HandshakeState::AwaitConsent { client, .. } => untrusted_device(host, client),
        _ => true,
    }
}

/// Step `j` of a run gave the host's pairing code while it was live.
pub open spec fn live_code_given(
    hosts: Seq<Host>,
    events: Seq<HandshakeEvent>,
    times: Seq<u128>,
    j: int,
) -> bool {
    pairing_code_matches(events[j], hosts[0].code()) && code_live(hosts[j], times[j])
}

/// What holds at every point of a run: the host is the one it started as,
/// but for a device its operator approved at the end and for its pairing
/// code being used up; a pending challenge was issued to a trusted device
/// of a host that allows key authentication; a device waiting on the code
/// or on consent is not trusted; a pending consent follows the right,
/// live pairing code on a host that is not headless.
pub open spec fn run_invariant(
    hosts: Seq<Host>,
    states: Seq<HandshakeState>,
    events: Seq<HandshakeEvent>,
    times: Seq<u128>,
    i: int,
) -> bool {
    &&& hosts[i].same_identity(hosts[0])
    &&& !(states[i] is Accepted) ==> hosts[i].trusted_list() == hosts[0].trusted_list()
    &&& states[i] is AwaitChallengeResponse ==> hosts[0].allows_trusted()
        && challenged_key_trusted(hosts[0], states[i])
    &&& pending_untrusted(hosts[0], states[i])
    &&& states[i] is AwaitConsent ==> !hosts[0].is_headless() && exists|j: int|
        0 <= j < i && #[trigger] live_code_given(hosts, events, times, j)
}

/// The event gives the pairing code.
pub open spec fn pairing_code_matches(event: HandshakeEvent, code: Seq<char>) -> bool {
    event matches HandshakeEvent::Message(ClientToHost::PairingCode { code: given }) && given@
        == code
}

proof fn lemma_run_invariant(
    hosts: Seq<Host>,
    states: Seq<HandshakeState>,
    events: Seq<HandshakeEvent>,
    times: Seq<u128>,
    actions: Seq<Seq<HostAction>>,
    host_name: Seq<char>,
    host_key: Seq<u8>,
    challenges: Seq<Seq<u8>>,
    i: int,
)
    requires
        handshake_run(hosts, states, events, times, actions, host_name, host_key, challenges),
        0 <= i <= events.len(),
    ensures
        run_invariant(hosts, states, events, times, i),
    decreases i,
{
    if i > 0 {
        lemma_run_invariant(hosts, states, events, times, actions, host_name, host_key, challenges, i - 1);
        let p = i - 1;
        assert(handshake_next(
            hosts[p],
            states[p],
            events[p],
            host_name,
            host_key,
            challenges[p],
            times[p],
            hosts[p + 1],
            states[p + 1],
            actions[p],
        ));
        law_trust_grows_only_by_consent(
            hosts[p],
            states[p],
            events[p],
            host_name,
            host_key,
            challenges[p],
            times[p],
            hosts[i],
            states[i],
            actions[p],
        );
        if states[i] is AwaitConsent {
            if states[p] is AwaitConsent {
                let j = choose|j: int|
                    0 <= j < p && #[trigger] live_code_given(hosts, events, times, j);
                assert(0 <= j < i && live_code_given(hosts, events, times, j));
            } else {
                law_consent_requires_pairing_code(
                    hosts[p],
                    states[p],
                    events[p],
                    host_name,
                    host_key,
                    challenges[p],
                    times[p],
                    hosts[i],
                    states[i],
                    actions[p],
                );
                assert(live_code_given(hosts, events, times, p));
            }
        }
        if states[i] is AwaitChallengeResponse && !(states[p] is AwaitChallengeResponse) {
            law_challenge_only_for_trusted_devices(
                hosts[p],
                states[p],
                events[p],
                host_name,
                host_key,
                challenges[p],
                times[p],
                hosts[i],
                states[i],
                actions[p],
            );
        }
    }
}

/// The run's acceptance at step `k` came by consent: on a host that is
/// not headless, for a device it would not let in by its key, after that
/// device gave the right pairing code while it was live.
pub open spec fn accepted_by_consent(
    hosts: Seq<Host>,
    states: Seq<HandshakeState>,
    events: Seq<HandshakeEvent>,
    times: Seq<u128>,
    k: int,
) -> bool {
    &&& !hosts[0].is_headless()
    &&& states[k] is AwaitConsent
    &&& pending_untrusted(hosts[0], states[k])
    &&& events[k] == (HandshakeEvent::Consent { approved: true })
    &&& exists|j: int| 0 <= j < k && #[trigger] live_code_given(hosts, events, times, j)
}

/// Default deny: in any run of the handshake, a client is accepted only as
/// a trusted device of a host that allows key authentication and after a
/// valid signature of the challenge the host issued, or, on a host that
/// is not headless, as a device it does not trust by key, after it gave
/// the right pairing code while the code was live and the operator
/// approved it.
pub proof fn law_default_deny(
    hosts: Seq<Host>,
    states: Seq<HandshakeState>,
    events: Seq<HandshakeEvent>,
    times: Seq<u128>,
    actions: Seq<Seq<HostAction>>,
    host_name: Seq<char>,
    host_key: Seq<u8>,
    challenges: Seq<Seq<u8>>,
    k: int,
)
    requires
        handshake_run(hosts, states, events, times, actions, host_name, host_key, challenges),
        0 <= k < events.len(),
        accepts(actions[k]),
    ensures
        (hosts[0].allows_trusted() && challenged_key_trusted(hosts[0], states[k])
            && signed_challenge(states[k], events[k])) || accepted_by_consent(
            hosts,
            states,
            events,
            times,
            k,
        ),
{
    lemma_run_invariant(hosts, states, events, times, actions, host_name, host_key, challenges, k);
    assert(handshake_next(
        hosts[k],
        states[k],
        events[k],
        host_name,
        host_key,
        challenges[k],
        times[k],
        hosts[k + 1],
        states[k + 1],
        actions[k],
    ));
    law_accept_only_after_authentication(
        hosts[k],
        states[k],
        events[k],
        host_name,
        host_key,
        challenges[k],
        times[k],
        hosts[k + 1],
        states[k + 1],
        actions[k],
    );
}

} // verus!
