//! The peers' side of rendezvous signaling: what a host announces and
//! answers on the broker, and how a client follows the broker to a host
//! address it can connect to.
use vstd::prelude::*;
use crate::rendezvous::RendezvousMessage;
use crate::text::{chars_of, str_equal, string_append, string_from, trim_text, trimmed};

verus! {

// ---------------------------------------------------------------------------
// Host: addresses to offer
// ---------------------------------------------------------------------------
/// The index of the last colon before `j` (`-1` where there is none).
pub open spec fn last_colon(s: Seq<char>, j: int) -> int
    decreases j,
{
    if j <= 0 || j > s.len() {
        -1
    } else if s[j - 1] == ':' {
        j - 1
    } else {
        last_colon(s, j - 1)
    }
}

/// The port of a listen address: the text after its last colon, or all of
/// it where it has none.
pub open spec fn port_of(addr: Seq<char>) -> Seq<char> {
    addr.subrange(last_colon(addr, addr.len() as int) + 1, addr.len() as int)
}

proof fn lemma_last_colon_range(s: Seq<char>, j: int)
    requires
        0 <= j <= s.len(),
    ensures
        -1 <= last_colon(s, j) < j,
    decreases j,
{
    if j > 0 && s[j - 1] != ':' {
        lemma_last_colon_range(s, j - 1);
    }
}

/// The port a host listens on, taken from its listen address.
pub fn listen_port(listen_addr: &str) -> (r: String)
    ensures
        r@ == port_of(listen_addr@),
{
    let cs = chars_of(listen_addr);
    let n = cs.len();
    let mut j: usize = n;
    while j > 0 && cs[j - 1] != ':'
        invariant
            j <= n,
            n == cs@.len(),
            last_colon(cs@, j as int) == last_colon(cs@, n as int),
        decreases j,
    {
        j = j - 1;
    }
    proof {
        lemma_last_colon_range(cs@, n as int);
        if j > 0 {
            assert(last_colon(cs@, j as int) == j - 1);
        } else {
            assert(last_colon(cs@, 0) == -1);
        }
    }
    let mut r = String::new();
    let mut k: usize = j;
    while k < n
        invariant
            j <= k <= n,
            n == cs@.len(),
            r@ == cs@.subrange(j as int, k as int),
        decreases n - k,
    {
        crate::text::string_push(&mut r, cs[k]);
        assert(cs@.subrange(j as int, k + 1) =~= cs@.subrange(j as int, k as int).push(cs@[k as int]));
        k = k + 1;
    }
    r
}

/// `ws://host:port`.
pub open spec fn ws_url(host: Seq<char>, port: Seq<char>) -> Seq<char> {
    "ws://"@ + host + ":"@ + port
}

/// The addresses a host offers a matched client, in order: its local
/// address where it knows one, the loopback address, and its public address
/// where the public-address service answered with a non-blank text
/// (trimmed).
pub open spec fn candidate_list(
    local_ip: Option<Seq<char>>,
    port: Seq<char>,
    public_reply: Option<Seq<char>>,
) -> Seq<Seq<char>> {
    (match local_ip {
        Some(ip) => seq![ws_url(ip, port)],
        None => Seq::empty(),
    }) + seq![ws_url("127.0.0.1"@, port)] + (match public_reply {
        Some(t) => if trimmed(t).len() > 0 {
            seq![ws_url(trimmed(t), port)]
        } else {
            Seq::empty()
        },
        None => Seq::empty(),
    })
}

/// Views of optional text.
pub open spec fn opt_text(o: Option<&str>) -> Option<Seq<char>> {
    match o {
        Some(t) => Some(t@),
        None => None,
    }
}

fn ws_url_exec(host: &str, port: &str) -> (r: String)
    ensures
        r@ == ws_url(host@, port@),
{
    let mut r = string_from("ws://");
    string_append(&mut r, host);
    string_append(&mut r, ":");
    string_append(&mut r, port);
    r
}

/// The addresses a host offers a matched client, given its local address,
/// its listen address and the public-address service's answer.
pub fn host_candidates(local_ip: Option<&str>, listen_addr: &str, public_reply: Option<&str>) -> (r:
    Vec<String>)
    ensures
        r@.map_values(|s: String| s@) == candidate_list(
            opt_text(local_ip),
            port_of(listen_addr@),
            opt_text(public_reply),
        ),
{
    let port = listen_port(listen_addr);
    let mut r: Vec<String> = Vec::new();
    match local_ip {
        Some(ip) => {
            r.push(ws_url_exec(ip, port.as_str()));
        },
        None => {},
    }
    r.push(ws_url_exec("127.0.0.1", port.as_str()));
    match public_reply {
        Some(t) => {
            let ip = trim_text(t);
            let cs = chars_of(ip.as_str());
            if cs.len() > 0 {
                r.push(ws_url_exec(ip.as_str(), port.as_str()));
            }
        },
        None => {},
    }
    assert(r@.map_values(|s: String| s@) =~= candidate_list(
        opt_text(local_ip),
        port_of(listen_addr@),
        opt_text(public_reply),
    ));
    r
}

// ---------------------------------------------------------------------------
// Host: signaling decisions
// ---------------------------------------------------------------------------
/// What a host does with a message from the broker.
pub enum HostSignal {
    /// Show the broker's pairing code to the operator.
    ShowPairingCode { pairing_code: String },
    /// A client was matched: gather addresses and send them to it.
    OfferCandidates { client_name: String, client_public_key: String },
    /// Nothing.
    Ignore,
}

/// The message with which a host registers on the broker.
pub fn host_registration(name: &str, public_key: &str) -> (r: RendezvousMessage)
    ensures
        r matches RendezvousMessage::RegisterHost { name: n, public_key: k } && n@ == name@ && k@
            == public_key@,
{
    RendezvousMessage::RegisterHost { name: string_from(name), public_key: string_from(public_key) }
}

/// A host's reaction to a broker message: a registration answer is shown,
/// a matched client is offered addresses, and anything else is ignored.
pub fn host_signal(msg: RendezvousMessage) -> (r: HostSignal)
    ensures
        match msg {
            RendezvousMessage::HostRegistered { pairing_code } => r matches HostSignal::ShowPairingCode {
                pairing_code: c,
            } && c == pairing_code,
            RendezvousMessage::ClientMatched { client_name, client_public_key } => r matches HostSignal::OfferCandidates {
                client_name: n,
                client_public_key: k,
            } && n == client_name && k == client_public_key,
            _ => r is Ignore,
        },
{
    match msg {
        RendezvousMessage::HostRegistered { pairing_code } => HostSignal::ShowPairingCode {
            pairing_code,
        },
        RendezvousMessage::ClientMatched { client_name, client_public_key } => {
            HostSignal::OfferCandidates { client_name, client_public_key }
        },
        _ => HostSignal::Ignore,
    }
}

/// The host's answer to a matched client: its addresses, addressed to the
/// client's key.
pub fn candidates_reply(
    client_public_key: String,
    local_ip: Option<&str>,
    listen_addr: &str,
    public_reply: Option<&str>,
) -> (r: RendezvousMessage)
    ensures
        r matches RendezvousMessage::SendCandidates { target_public_key, candidates } && target_public_key
            == client_public_key && candidates@.map_values(|s: String| s@) == candidate_list(
            opt_text(local_ip),
            port_of(listen_addr@),
            opt_text(public_reply),
        ),
{
    let candidates = host_candidates(local_ip, listen_addr, public_reply);
    RendezvousMessage::SendCandidates { target_public_key: client_public_key, candidates }
}

// ---------------------------------------------------------------------------
// Client: following the broker to a host
// ---------------------------------------------------------------------------
/// What the client has learned from the broker so far.
pub struct ResolveState {
    /// The key of the host the broker matched, once it has.
    pub host_public_key: Option<String>,
}

/// What happens while the client waits on the broker.
pub enum ResolveEvent {
    /// A message arrived from the broker.
    Message(RendezvousMessage),
    /// The broker closed the connection, or it failed.
    Ended,
    /// No offered address could be reached.
    CandidatesExhausted,
}

/// What the client does next.
pub enum ResolveStep {
    /// Wait for the next message.
    Wait,
    /// Tell the user which host was matched, and wait.
    Matched { host_name: String },
    /// Try these addresses in order; the first that connects is the host.
    TryCandidates { candidates: Vec<String> },
    /// Give up with this error.
    Fail { message: String },
}

pub open spec fn unreachable_text() -> Seq<char> {
    "Could not connect to any resolved direct host candidates"@
}

pub open spec fn unresolved_text() -> Seq<char> {
    "Rendezvous matchmaking failed to resolve host"@
}

/// The step is a failure with the given text.
pub open spec fn fails(step: ResolveStep, message: Seq<char>) -> bool {
    step matches ResolveStep::Fail { message: m } && m@ == message
}

/// The client's resolution on one event: a match records the host's key;
/// addresses from that host are tried, and addresses from anyone else (or
/// before a match) end the search; a broker error or the end of the
/// connection ends it too.
pub open spec fn resolve_next(
    state: Option<Seq<char>>,
    event: ResolveEvent,
    state2: Option<Seq<char>>,
    step: ResolveStep,
) -> bool {
    match event {
        ResolveEvent::Message(msg) => match msg {
            RendezvousMessage::PairingMatched { host_name, host_public_key } => {
                &&& state2 == Some(host_public_key@)
                &&& step matches ResolveStep::Matched { host_name: n } && n == host_name
            },
            RendezvousMessage::CandidatesReceived { from_public_key, candidates } => {
                &&& state2 == state
                &&& if state == Some(from_public_key@) {
                    step matches ResolveStep::TryCandidates { candidates: c } && c == candidates
                } else {
                    fails(step, unreachable_text())
                }
            },
            RendezvousMessage::Error { message } => {
                &&& state2 == state
                &&& fails(step, "Rendezvous error: "@ + message@)
            },
            _ => state2 == state && step is Wait,
        },
        ResolveEvent::Ended => state2 == state && fails(step, unresolved_text()),
        ResolveEvent::CandidatesExhausted => state2 == state && fails(step, unreachable_text()),
    }
}

pub open spec fn key_view(o: Option<String>) -> Option<Seq<char>> {
    match o {
        Some(k) => Some(k@),
        None => None,
    }
}

impl ResolveState {
    /// Nothing learned yet.
    pub fn new() -> (r: ResolveState)
        ensures
            r.host_public_key is None,
    {
        ResolveState { host_public_key: None }
    }

    /// Takes one event of the search for the host.
    pub fn step(&mut self, event: ResolveEvent) -> (r: ResolveStep)
        ensures
            resolve_next(
                key_view(old(self).host_public_key),
                event,
                key_view(final(self).host_public_key),
                r,
            ),
    {
        match event {
            ResolveEvent::Message(msg) => match msg {
                RendezvousMessage::PairingMatched { host_name, host_public_key } => {
                    self.host_public_key = Some(host_public_key);
                    ResolveStep::Matched { host_name }
                },
                RendezvousMessage::CandidatesReceived { from_public_key, candidates } => {
                    let from_host = match &self.host_public_key {
                        Some(k) => str_equal(k.as_str(), from_public_key.as_str()),
                        None => false,
                    };
                    if from_host {
                        ResolveStep::TryCandidates { candidates }
                    } else {
                        ResolveStep::Fail {
                            message: string_from(
                                "Could not connect to any resolved direct host candidates",
                            ),
                        }
                    }
                },
                RendezvousMessage::Error { message } => {
                    let mut m = string_from("Rendezvous error: ");
                    string_append(&mut m, message.as_str());
                    ResolveStep::Fail { message: m }
                },
                _ => ResolveStep::Wait,
            },
            ResolveEvent::Ended => ResolveStep::Fail {
                message: string_from("Rendezvous matchmaking failed to resolve host"),
            },
            ResolveEvent::CandidatesExhausted => ResolveStep::Fail {
                message: string_from("Could not connect to any resolved direct host candidates"),
            },
        }
    }
}

/// The message with which a client asks the broker for the host of a
/// pairing code.
pub fn pairing_request(code: &str, name: &str, public_key: &str) -> (r: RendezvousMessage)
    ensures
        r matches RendezvousMessage::RequestPairing { code: c, name: n, public_key: k } && c@
            == code@ && n@ == name@ && k@ == public_key@,
{
    RendezvousMessage::RequestPairing {
        code: string_from(code),
        name: string_from(name),
        public_key: string_from(public_key),
    }
}

} // verus!
