//! The rendezvous broker: its in-memory store of device presence,
//! ephemeral pairing codes and session offers, the signaling messages, and
//! the broker's reaction to each message.
use vstd::prelude::*;
use std::time::{Duration, Instant};
use crate::host::{format_pairing_code, pairing_code_text};
use crate::keyed::KeyedList;
use crate::text::{str_equal, string_append, string_from};
use rand::Rng;

verus! {

/// The monotonic clock's instants.
#[verifier::external_type_specification]
#[verifier::external_body]
pub struct ExInstant(Instant);

/// Errors of the rendezvous store and broker.
#[derive(Debug)]
pub enum RendezvousError {
    InvalidPairingCode,
    DeviceNotFound,
    OfferNotFound,
    Store(String),
}

/// A point of wall-clock time: whole seconds since the Unix epoch and the
/// nanoseconds past them.
#[derive(Debug, Clone, Copy, PartialEq, Eq, Structural)]
pub struct UtcTime {
    pub secs: i64,
    pub nanos: u32,
}

/// Nanoseconds since the Unix epoch.
pub open spec fn utc_nanos(t: UtcTime) -> int {
    t.secs * 1_000_000_000 + t.nanos
}

/// Whole seconds from `then` to `now`, rounded toward zero.
pub open spec fn seconds_between(now: UtcTime, then: UtcTime) -> int {
    let d = utc_nanos(now) - utc_nanos(then);
    if d >= 0 {
        d / 1_000_000_000
    } else {
        -((-d) / 1_000_000_000)
    }
}

/// A `u64` read as the `i64` of the same bits.
pub open spec fn as_signed(v: u64) -> int {
    if v <= i64::MAX as u64 {
        v as int
    } else {
        v - 0x1_0000_0000_0000_0000
    }
}

/// The last known whereabouts of a device.
#[derive(Debug)]
pub struct DevicePresence {
    /// Base64 text of the device's public key.
    pub public_key: String,
    pub display_name: String,
    /// The last seen connection string.
    pub address: String,
    pub last_seen: UtcTime,
}

impl DevicePresence {
    /// An identical copy.
    pub fn copy(&self) -> (r: DevicePresence)
        ensures
            r == *self,
    {
        DevicePresence {
            public_key: self.public_key.clone(),
            display_name: self.display_name.clone(),
            address: self.address.clone(),
            last_seen: self.last_seen,
        }
    }
}

/// An offer to connect a host and a client, with the addresses each may be
/// reached at.
#[derive(Debug)]
pub struct SessionOffer {
    pub session_id: String,
    pub host_public_key: String,
    pub client_public_key: String,
    pub host_address_candidates: Vec<String>,
    pub client_address_candidates: Vec<String>,
    pub created_at: UtcTime,
    pub ttl_secs: u64,
}

/// A pairing code's host and the monotonic time, in nanoseconds since the
/// store was made, at which it expires.
pub struct EphemeralPairing {
    pub host_public_key: String,
    pub expiry_nanos: u128,
}

/// The key of an offer: the host's key, a colon, the client's key.
pub open spec fn offer_key(host_public_key: Seq<char>, client_public_key: Seq<char>) -> Seq<char> {
    host_public_key + ":"@ + client_public_key
}

/// A device seen within the maximum age (a device seen in the future
/// counts as just seen).
pub open spec fn device_fresh(d: DevicePresence, now: UtcTime, max_age_nanos: u128) -> bool {
    let age = utc_nanos(now) - utc_nanos(d.last_seen);
    (if age < 0 {
        0
    } else {
        age
    }) < max_age_nanos
}

/// An offer within its time to live.
pub open spec fn offer_fresh(o: SessionOffer, now: UtcTime) -> bool {
    seconds_between(now, o.created_at) < as_signed(o.ttl_secs)
}

/// A pairing before its expiry.
pub open spec fn pairing_fresh(p: EphemeralPairing, now_nanos: u128) -> bool {
    now_nanos < p.expiry_nanos
}

/// The expiry of a pairing made at `now_nanos` for `ttl_secs` seconds;
/// it saturates at the end of the clock's range.
pub open spec fn expiry_after(now_nanos: u128, ttl_secs: u64) -> u128 {
    let e = now_nanos + ttl_secs * 1_000_000_000;
    if e > u128::MAX {
        u128::MAX
    } else {
        e as u128
    }
}

/// The store of the rendezvous broker.
pub trait RendezvousStore {
    fn put_device(&mut self, device: DevicePresence) -> Result<(), RendezvousError>;

    fn get_device(&self, public_key: &str) -> Result<DevicePresence, RendezvousError>;

    fn create_pairing_code(
        &mut self,
        code: String,
        host_public_key: String,
        ttl_secs: u64,
    ) -> Result<(), RendezvousError>;

    /// Gives the host's public key of a live code, and forgets the code.
    fn consume_pairing_code(&mut self, code: &str) -> Result<String, RendezvousError>;

    fn put_session_offer(&mut self, offer: SessionOffer) -> Result<(), RendezvousError>;

    /// Gives a live offer between a host and a client, and forgets it.
    fn get_session_offer(
        &mut self,
        host_public_key: &str,
        client_public_key: &str,
    ) -> Result<SessionOffer, RendezvousError>;

    fn cleanup_expired(&mut self, max_age: Duration) -> Result<(), RendezvousError>;
}

/// `Instant::now`.
#[verifier::external_body]
pub(crate) fn instant_now() -> Instant {
    Instant::now()
}

/// `Instant::elapsed` in nanoseconds; it depends on the clock, and nothing
/// is claimed of it.
#[verifier::external_body]
pub(crate) fn nanos_since(origin: &Instant) -> u128 {
    origin.elapsed().as_nanos()
}

/// `chrono::Utc::now`, as seconds and nanoseconds since the epoch; it
/// depends on the clock, and nothing is claimed of it.
#[verifier::external_body]
pub(crate) fn utc_now() -> UtcTime {
    let now = chrono::Utc::now();
    UtcTime { secs: now.timestamp(), nanos: now.timestamp_subsec_nanos() }
}

/// The whole number of nanoseconds a `Duration` spans, as
/// `Duration::as_nanos` gives it; it depends on the duration alone.
pub uninterp spec fn duration_nanos_of(d: Duration) -> u128;

/// `Duration::as_nanos`.
#[verifier::external_body]
fn duration_nanos(d: &Duration) -> (r: u128)
    ensures
        r == duration_nanos_of(*d),
{
    d.as_nanos()
}

/// The in-memory store: nothing outlives the process.
pub struct InMemoryStore {
    origin: Instant,
    devices: KeyedList<DevicePresence>,
    pairings: KeyedList<EphemeralPairing>,
    offers: KeyedList<SessionOffer>,
}

impl InMemoryStore {
    /// The devices by public key.
    pub closed spec fn devices_view(&self) -> Map<Seq<char>, DevicePresence> {
        self.devices@
    }

    /// The pairings by code.
    pub closed spec fn pairings_view(&self) -> Map<Seq<char>, EphemeralPairing> {
        self.pairings@
    }

    /// The offers by offer key.
    pub closed spec fn offers_view(&self) -> Map<Seq<char>, SessionOffer> {
        self.offers@
    }

    /// An empty store.
    pub fn new() -> (r: InMemoryStore)
        ensures
            r.devices_view() == Map::<Seq<char>, DevicePresence>::empty(),
            r.pairings_view() == Map::<Seq<char>, EphemeralPairing>::empty(),
            r.offers_view() == Map::<Seq<char>, SessionOffer>::empty(),
    {
        InMemoryStore {
            origin: instant_now(),
            devices: KeyedList::new(),
            pairings: KeyedList::new(),
            offers: KeyedList::new(),
        }
    }

    /// The store's monotonic time: nanoseconds since it was made.
    pub(crate) fn now_nanos(&self) -> u128 {
        nanos_since(&self.origin)
    }

    /// Records a device's presence under its public key.
    pub fn put_device_at(&mut self, device: DevicePresence)
        ensures
            final(self).devices_view() == old(self).devices_view().insert(
                device.public_key@,
                device,
            ),
            final(self).pairings_view() == old(self).pairings_view(),
            final(self).offers_view() == old(self).offers_view(),
    {
        let key = device.public_key.clone();
        self.devices.insert(key, device);
    }

    /// The presence of the device with the public key.
    pub fn lookup_device(&self, public_key: &str) -> (r: Result<DevicePresence, RendezvousError>)
        ensures
            match r {
                Ok(d) => self.devices_view().contains_key(public_key@) && d
                    == self.devices_view()[public_key@],
                Err(e) => !self.devices_view().contains_key(public_key@) && e is DeviceNotFound,
            },
    {
        match self.devices.get(public_key) {
            Some(d) => Ok(d.copy()),
            None => Err(RendezvousError::DeviceNotFound),
        }
    }

    /// Makes a pairing code that names the host for `ttl_secs` seconds
    /// from `now_nanos`.
    pub fn create_pairing_code_at(
        &mut self,
        code: String,
        host_public_key: String,
        ttl_secs: u64,
        now_nanos: u128,
    )
        ensures
            final(self).pairings_view() == old(self).pairings_view().insert(
                code@,
                EphemeralPairing { host_public_key, expiry_nanos: expiry_after(now_nanos, ttl_secs) },
            ),
            final(self).devices_view() == old(self).devices_view(),
            final(self).offers_view() == old(self).offers_view(),
    {
        let ttl_nanos: u128 = (ttl_secs as u128) * 1_000_000_000;
        let expiry_nanos = now_nanos.saturating_add(ttl_nanos);
        self.pairings.insert(code, EphemeralPairing { host_public_key, expiry_nanos });
    }

    /// Consumes a pairing code at `now_nanos`: the host's public key where
    /// the code is known and not expired. The code is forgotten either
    /// way.
    pub fn consume_pairing_code_at(&mut self, code: &str, now_nanos: u128) -> (r: Result<
        String,
        RendezvousError,
    >)
        ensures
            code_consumed(*old(self), *final(self), code@, now_nanos, r),
    {
        match self.pairings.remove(code) {
            Some(pairing) => {
                if now_nanos < pairing.expiry_nanos {
                    Ok(pairing.host_public_key)
                } else {
                    Err(RendezvousError::InvalidPairingCode)
                }
            },
            None => Err(RendezvousError::InvalidPairingCode),
        }
    }

    /// Records an offer under its host's and client's keys.
    pub fn put_session_offer_at(&mut self, offer: SessionOffer)
        ensures
            final(self).offers_view() == old(self).offers_view().insert(
                offer_key(offer.host_public_key@, offer.client_public_key@),
                offer,
            ),
            final(self).devices_view() == old(self).devices_view(),
            final(self).pairings_view() == old(self).pairings_view(),
    {
        let key = offer_key_text(offer.host_public_key.as_str(), offer.client_public_key.as_str());
        self.offers.insert(key, offer);
    }

    /// Takes the offer between a host and a client at `now`: the offer
    /// where it is known and within its time to live. It is forgotten
    /// either way.
    pub fn take_session_offer_at(
        &mut self,
        host_public_key: &str,
        client_public_key: &str,
        now: UtcTime,
    ) -> (r: Result<SessionOffer, RendezvousError>)
        ensures
            offer_taken(
                *old(self),
                *final(self),
                offer_key(host_public_key@, client_public_key@),
                now,
                r,
            ),
    {
        let key = offer_key_text(host_public_key, client_public_key);
        match self.offers.remove(key.as_str()) {
            Some(offer) => {
                if seconds_elapsed(now, offer.created_at) < signed_ttl(offer.ttl_secs) {
                    Ok(offer)
                } else {
                    Err(RendezvousError::OfferNotFound)
                }
            },
            None => Err(RendezvousError::OfferNotFound),
        }
    }

    /// Forgets, at the given times, the devices not seen within the
    /// maximum age, the expired pairings and the stale offers.
    pub fn cleanup_expired_at(&mut self, max_age_nanos: u128, now: UtcTime, now_nanos: u128)
        ensures
            cleaned_up(*old(self), *final(self), max_age_nanos, now, now_nanos),
    {
        // Devices.
        let mut keep: Vec<bool> = Vec::new();
        let n = self.devices.len();
        let mut i: usize = 0;
        while i < n
            invariant
                n == self.devices.entry_seq().len(),
                i <= n,
                keep@.len() == i,
                forall|j: int|
                    0 <= j < i ==> keep@[j] == device_fresh(
                        #[trigger] self.devices.entry_seq()[j].1,
                        now,
                        max_age_nanos,
                    ),
            decreases n - i,
        {
            let d = self.devices.value_at(i);
            keep.push(device_is_fresh(d, now, max_age_nanos));
            i = i + 1;
        }
        self.devices.retain_marked(
            &keep,
            Ghost(|d: DevicePresence| device_fresh(d, now, max_age_nanos)),
        );
        // Pairings.
        let mut keep: Vec<bool> = Vec::new();
        let n = self.pairings.len();
        let mut i: usize = 0;
        while i < n
            invariant
                n == self.pairings.entry_seq().len(),
                i <= n,
                keep@.len() == i,
                forall|j: int|
                    0 <= j < i ==> keep@[j] == pairing_fresh(
                        #[trigger] self.pairings.entry_seq()[j].1,
                        now_nanos,
                    ),
            decreases n - i,
        {
            let p = self.pairings.value_at(i);
            keep.push(now_nanos < p.expiry_nanos);
            i = i + 1;
        }
        self.pairings.retain_marked(
            &keep,
            Ghost(|p: EphemeralPairing| pairing_fresh(p, now_nanos)),
        );
        // Offers.
        let mut keep: Vec<bool> = Vec::new();
        let n = self.offers.len();
        let mut i: usize = 0;
        while i < n
            invariant
                n == self.offers.entry_seq().len(),
                i <= n,
                keep@.len() == i,
                forall|j: int|
                    0 <= j < i ==> keep@[j] == offer_fresh(
                        #[trigger] self.offers.entry_seq()[j].1,
                        now,
                    ),
            decreases n - i,
        {
            let o = self.offers.value_at(i);
            keep.push(seconds_elapsed(now, o.created_at) < signed_ttl(o.ttl_secs));
            i = i + 1;
        }
        self.offers.retain_marked(&keep, Ghost(|o: SessionOffer| offer_fresh(o, now)));
        assert(self.devices_view() =~= old(self).devices_view().restrict(
            old(self).devices_view().dom().filter(
                |k| device_fresh(old(self).devices_view()[k], now, max_age_nanos),
            ),
        ));
        assert(self.pairings_view() =~= old(self).pairings_view().restrict(
            old(self).pairings_view().dom().filter(
                |k| pairing_fresh(old(self).pairings_view()[k], now_nanos),
            ),
        ));
        assert(self.offers_view() =~= old(self).offers_view().restrict(
            old(self).offers_view().dom().filter(|k| offer_fresh(old(self).offers_view()[k], now)),
        ));
    }
}

fn offer_key_text(host_public_key: &str, client_public_key: &str) -> (r: String)
    ensures
        r@ == offer_key(host_public_key@, client_public_key@),
{
    let mut key = string_from(host_public_key);
    string_append(&mut key, ":");
    string_append(&mut key, client_public_key);
    key
}

fn utc_nanos_exec(t: UtcTime) -> (r: i128)
    ensures
        r == utc_nanos(t),
{
    (t.secs as i128) * 1_000_000_000 + (t.nanos as i128)
}

fn seconds_elapsed(now: UtcTime, then: UtcTime) -> (r: i128)
    ensures
        r == seconds_between(now, then),
{
    let d = utc_nanos_exec(now) - utc_nanos_exec(then);
    if d >= 0 {
        d / 1_000_000_000
    } else {
        -((-d) / 1_000_000_000)
    }
}

fn signed_ttl(ttl: u64) -> (r: i128)
    ensures
        r == as_signed(ttl),
{
    if ttl <= 0x7fff_ffff_ffff_ffff {
        ttl as i128
    } else {
        (ttl as i128) - 0x1_0000_0000_0000_0000
    }
}

fn device_is_fresh(d: &DevicePresence, now: UtcTime, max_age_nanos: u128) -> (r: bool)
    ensures
        r == device_fresh(*d, now, max_age_nanos),
{
    let age = utc_nanos_exec(now) - utc_nanos_exec(d.last_seen);
    let age: u128 = if age < 0 {
        0
    } else {
        age as u128
    };
    age < max_age_nanos
}

/// Consuming a pairing code at `now_nanos` took it from `before` to
/// `after` with result `r`: the code is forgotten either way, and the host
/// key is given exactly where the code was known and not expired.
pub open spec fn code_consumed(
    before: InMemoryStore,
    after: InMemoryStore,
    code: Seq<char>,
    now_nanos: u128,
    r: Result<String, RendezvousError>,
) -> bool {
    &&& after.pairings_view() == before.pairings_view().remove(code)
    &&& after.devices_view() == before.devices_view()
    &&& after.offers_view() == before.offers_view()
    &&& match r {
        Ok(host) => before.pairings_view().contains_key(code) && pairing_fresh(
            before.pairings_view()[code],
            now_nanos,
        ) && host == before.pairings_view()[code].host_public_key,
        Err(e) => e is InvalidPairingCode && !(before.pairings_view().contains_key(code)
            && pairing_fresh(before.pairings_view()[code], now_nanos)),
    }
}

/// Taking the offer under key `k` at `now` took the store from `before` to
/// `after` with result `r`: the offer is forgotten either way, and given
/// exactly where it was known and within its time to live.
pub open spec fn offer_taken(
    before: InMemoryStore,
    after: InMemoryStore,
    k: Seq<char>,
    now: UtcTime,
    r: Result<SessionOffer, RendezvousError>,
) -> bool {
    &&& after.offers_view() == before.offers_view().remove(k)
    &&& after.devices_view() == before.devices_view()
    &&& after.pairings_view() == before.pairings_view()
    &&& match r {
        Ok(o) => before.offers_view().contains_key(k) && o == before.offers_view()[k]
            && offer_fresh(o, now),
        Err(e) => e is OfferNotFound && !(before.offers_view().contains_key(k) && offer_fresh(
            before.offers_view()[k],
            now,
        )),
    }
}

/// A clean-up at the given times took the store from `before` to `after`:
/// it kept exactly the devices seen within the maximum age, the pairings
/// not yet expired and the offers within their time to live.
pub open spec fn cleaned_up(
    before: InMemoryStore,
    after: InMemoryStore,
    max_age_nanos: u128,
    now: UtcTime,
    now_nanos: u128,
) -> bool {
    &&& after.devices_view() == before.devices_view().restrict(
        before.devices_view().dom().filter(
            |k| device_fresh(before.devices_view()[k], now, max_age_nanos),
        ),
    )
    &&& after.pairings_view() == before.pairings_view().restrict(
        before.pairings_view().dom().filter(|k| pairing_fresh(before.pairings_view()[k], now_nanos)),
    )
    &&& after.offers_view() == before.offers_view().restrict(
        before.offers_view().dom().filter(|k| offer_fresh(before.offers_view()[k], now)),
    )
}

impl RendezvousStore for InMemoryStore {
    fn put_device(&mut self, device: DevicePresence) -> (r: Result<(), RendezvousError>)
        ensures
            r is Ok,
            final(self).devices_view() == old(self).devices_view().insert(
                device.public_key@,
                device,
            ),
            final(self).pairings_view() == old(self).pairings_view(),
            final(self).offers_view() == old(self).offers_view(),
    {
        self.put_device_at(device);
        Ok(())
    }

    fn get_device(&self, public_key: &str) -> (r: Result<DevicePresence, RendezvousError>)
        ensures
            match r {
                Ok(d) => self.devices_view().contains_key(public_key@) && d
                    == self.devices_view()[public_key@],
                Err(e) => !self.devices_view().contains_key(public_key@) && e is DeviceNotFound,
            },
    {
        self.lookup_device(public_key)
    }

    fn create_pairing_code(&mut self, code: String, host_public_key: String, ttl_secs: u64) -> (r:
        Result<(), RendezvousError>)
        ensures
            r is Ok,
            exists|now: u128|
                final(self).pairings_view() == old(self).pairings_view().insert(
                    code@,
                    EphemeralPairing {
                        host_public_key,
                        expiry_nanos: expiry_after(now, ttl_secs),
                    },
                ),
            final(self).devices_view() == old(self).devices_view(),
            final(self).offers_view() == old(self).offers_view(),
    {
        let now = self.now_nanos();
        self.create_pairing_code_at(code, host_public_key, ttl_secs, now);
        Ok(())
    }

    fn consume_pairing_code(&mut self, code: &str) -> (r: Result<String, RendezvousError>)
        ensures
            exists|now_nanos: u128| code_consumed(*old(self), *final(self), code@, now_nanos, r),
    {
        let now = self.now_nanos();
        self.consume_pairing_code_at(code, now)
    }

    fn put_session_offer(&mut self, offer: SessionOffer) -> (r: Result<(), RendezvousError>)
        ensures
            r is Ok,
            final(self).offers_view() == old(self).offers_view().insert(
                offer_key(offer.host_public_key@, offer.client_public_key@),
                offer,
            ),
            final(self).devices_view() == old(self).devices_view(),
            final(self).pairings_view() == old(self).pairings_view(),
    {
        self.put_session_offer_at(offer);
        Ok(())
    }

    fn get_session_offer(&mut self, host_public_key: &str, client_public_key: &str) -> (r: Result<
        SessionOffer,
        RendezvousError,
    >)
        ensures
            exists|now: UtcTime|
                offer_taken(
                    *old(self),
                    *final(self),
                    offer_key(host_public_key@, client_public_key@),
                    now,
                    r,
                ),
    {
        let now = utc_now();
        self.take_session_offer_at(host_public_key, client_public_key, now)
    }

    fn cleanup_expired(&mut self, max_age: Duration) -> (r: Result<(), RendezvousError>)
        ensures
            r is Ok,
            exists|now: UtcTime, now_nanos: u128|
                cleaned_up(*old(self), *final(self), duration_nanos_of(max_age), now, now_nanos),
    {
        let max_age_nanos = duration_nanos(&max_age);
        let now = utc_now();
        let now_nanos = self.now_nanos();
        self.cleanup_expired_at(max_age_nanos, now, now_nanos);
        Ok(())
    }
}

/// A pairing code is used at most once: after one consumption of a code,
/// whatever it gave and whenever it happened, a second consumption of the
/// same code fails.
pub proof fn law_pairing_code_single_use(
    s0: InMemoryStore,
    s1: InMemoryStore,
    s2: InMemoryStore,
    code: Seq<char>,
    first_nanos: u128,
    second_nanos: u128,
    first: Result<String, RendezvousError>,
    second: Result<String, RendezvousError>,
)
    requires
        code_consumed(s0, s1, code, first_nanos, first),
        code_consumed(s1, s2, code, second_nanos, second),
    ensures
        second matches Err(e) && e is InvalidPairingCode,
{
}

/// A code made for a host with a time to live gives that host when it is
/// consumed before it expires, and fails when consumed at or after its
/// expiry; the expiry is the time of making plus the time to live (held
/// at the end of the clock's range).
pub proof fn law_pairing_code_lifetime(
    s0: InMemoryStore,
    s1: InMemoryStore,
    s2: InMemoryStore,
    code: Seq<char>,
    host_public_key: String,
    ttl_secs: u64,
    created: u128,
    consumed: u128,
    r: Result<String, RendezvousError>,
)
    requires
        s1.pairings_view() == s0.pairings_view().insert(
            code,
            EphemeralPairing { host_public_key, expiry_nanos: expiry_after(created, ttl_secs) },
        ),
        code_consumed(s1, s2, code, consumed, r),
    ensures
        r is Ok <==> consumed < expiry_after(created, ttl_secs),
        r is Ok ==> r->Ok_0 == host_public_key,
        created + ttl_secs * 1_000_000_000 <= u128::MAX ==> expiry_after(created, ttl_secs)
            == created + ttl_secs * 1_000_000_000,
{
}

// ---------------------------------------------------------------------------
// Signaling
// ---------------------------------------------------------------------------
/// Messages between peers and the rendezvous broker.
#[derive(Debug, Clone)]
pub enum RendezvousMessage {
    RegisterHost { name: String, public_key: String },
    HostRegistered { pairing_code: String },
    RequestPairing { code: String, name: String, public_key: String },
    PairingMatched { host_name: String, host_public_key: String },
    ClientMatched { client_name: String, client_public_key: String },
    SendCandidates { target_public_key: String, candidates: Vec<String> },
    CandidatesReceived { from_public_key: String, candidates: Vec<String> },
    Error { message: String },
}

/// How long, in seconds, a broker's pairing code lives.
pub open spec fn broker_code_ttl() -> u64 {
    300
}

/// The broker's answer to one message of a peer: the reply to the peer or
/// an error text for it, and messages forwarded to other peers (by their
/// connection numbers).
pub struct BrokerOutcome {
    pub reply: Result<Option<RendezvousMessage>, String>,
    pub forward: Vec<(u64, RendezvousMessage)>,
}

/// `rand::Rng::gen_range(0..1000000)` on the thread's random generator.
#[verifier::external_body]
fn random_code_number() -> (r: u32)
    ensures
        r < 1000000,
{
    rand::thread_rng().gen_range(0..1000000u32)
}

/// The outcome is the given error, with nothing forwarded.
pub open spec fn fails_with(outcome: BrokerOutcome, message: Seq<char>) -> bool {
    &&& outcome.reply matches Err(m) && m@ == message
    &&& outcome.forward@.len() == 0
}

/// How the broker handles one message from the peer with connection
/// number `sender`, whose registered key is `device_key`; `pairing_number`
/// is the code for a host that registers and `now_nanos` the store's
/// time.
pub open spec fn broker_next(
    store: InMemoryStore,
    peers: Map<Seq<char>, u64>,
    device_key: Option<String>,
    msg: RendezvousMessage,
    sender: u64,
    pairing_number: nat,
    now_nanos: u128,
    store2: InMemoryStore,
    peers2: Map<Seq<char>, u64>,
    device_key2: Option<String>,
    outcome: BrokerOutcome,
) -> bool {
    match msg {
        RendezvousMessage::RegisterHost { name: _, public_key } => {
            &&& device_key2 == Some(public_key)
            &&& peers2 == peers.insert(public_key@, sender)
            &&& store2.devices_view() == store.devices_view()
            &&& store2.offers_view() == store.offers_view()
            &&& store2.pairings_view().dom() == store.pairings_view().dom().insert(
                pairing_code_text(pairing_number),
            )
            &&& store2.pairings_view()[pairing_code_text(pairing_number)].host_public_key@
                == public_key@
            &&& store2.pairings_view()[pairing_code_text(pairing_number)].expiry_nanos
                == expiry_after(now_nanos, broker_code_ttl())
            &&& forall|k: Seq<char>|
                k != pairing_code_text(pairing_number) && #[trigger] store.pairings_view().contains_key(k)
                    ==> store2.pairings_view()[k] == store.pairings_view()[k]
            &&& outcome.reply matches Ok(Some(
                RendezvousMessage::HostRegistered { pairing_code },
            )) && pairing_code@ == pairing_code_text(pairing_number)
            &&& outcome.forward@.len() == 0
        },
        RendezvousMessage::RequestPairing { code, name, public_key } => {
            let live = store.pairings_view().contains_key(code@) && pairing_fresh(
                store.pairings_view()[code@],
                now_nanos,
            );
            &&& device_key2 == Some(public_key)
            &&& peers2 == peers.insert(public_key@, sender)
            &&& store2.pairings_view() == store.pairings_view().remove(code@)
            &&& store2.devices_view() == store.devices_view()
            &&& store2.offers_view() == store.offers_view()
            &&& if !live {
                fails_with(outcome, "Invalid pairing code or expired"@)
            } else {
                let host_key = store.pairings_view()[code@].host_public_key@;
                if peers2.contains_key(host_key) {
                    &&& outcome.reply matches Ok(Some(
                        RendezvousMessage::PairingMatched { host_name, host_public_key },
                    )) && host_name@ == "Remote Host"@ && host_public_key@ == host_key
                    &&& outcome.forward@.len() == 1
                    &&& outcome.forward@[0].0 == peers2[host_key]
                    &&& outcome.forward@[0].1 matches RendezvousMessage::ClientMatched {
                        client_name,
                        client_public_key,
                    } && client_name@ == name@ && client_public_key@ == public_key@
                } else {
                    fails_with(outcome, "Matched host is currently offline"@)
                }
            }
        },
        RendezvousMessage::SendCandidates { target_public_key, candidates } => {
            &&& device_key2 == device_key
            &&& peers2 == peers
            &&& store2 == store
            &&& match device_key {
                None => fails_with(outcome, "Not registered"@),
                Some(from) => if peers.contains_key(target_public_key@) {
                    &&& outcome.reply == Ok::<Option<RendezvousMessage>, String>(None)
                    &&& outcome.forward@.len() == 1
                    &&& outcome.forward@[0].0 == peers[target_public_key@]
                    &&& outcome.forward@[0].1 matches RendezvousMessage::CandidatesReceived {
                        from_public_key,
                        candidates: c,
                    } && from_public_key@ == from@ && c == candidates
                } else {
                    fails_with(outcome, "Target peer is offline"@)
                },
            }
        },
        _ => {
            &&& device_key2 == device_key
            &&& peers2 == peers
            &&& store2 == store
            &&& fails_with(outcome, "Invalid command sent to signaling server"@)
        },
    }
}

/// The broker passes on nothing but signaling: whatever it receives, each
/// message it forwards to another peer is a match notice or a list of
/// address candidates, and a host's registration is forwarded to no one.
pub proof fn law_broker_forwards_only_signaling(
    store: InMemoryStore,
    peers: Map<Seq<char>, u64>,
    device_key: Option<String>,
    msg: RendezvousMessage,
    sender: u64,
    pairing_number: nat,
    now_nanos: u128,
    store2: InMemoryStore,
    peers2: Map<Seq<char>, u64>,
    device_key2: Option<String>,
    outcome: BrokerOutcome,
)
    requires
        broker_next(
            store,
            peers,
            device_key,
            msg,
            sender,
            pairing_number,
            now_nanos,
            store2,
            peers2,
            device_key2,
            outcome,
        ),
    ensures
        forall|i: int|
            0 <= i < outcome.forward@.len() ==> {
                ||| (#[trigger] outcome.forward@[i]).1 is ClientMatched
                ||| outcome.forward@[i].1 is CandidatesReceived
            },
        msg is RegisterHost ==> outcome.forward@.len() == 0,
{
}

/// Handles one message, with a given code for a registering host and a
/// given store time.
pub fn handle_message_at(
    msg: RendezvousMessage,
    store: &mut InMemoryStore,
    peers: &mut KeyedList<u64>,
    sender: u64,
    device_key: &mut Option<String>,
    pairing_number: u32,
    now_nanos: u128,
) -> (r: BrokerOutcome)
    requires
        pairing_number < 1000000,
    ensures
        broker_next(
            *old(store),
            old(peers)@,
            *old(device_key),
            msg,
            sender,
            pairing_number as nat,
            now_nanos,
            *final(store),
            final(peers)@,
            *final(device_key),
            r,
        ),
{
    match msg {
        RendezvousMessage::RegisterHost { name: _, public_key } => {
            *device_key = Some(public_key.clone());
            peers.insert(public_key.clone(), sender);
            let code = format_pairing_code(pairing_number);
            store.create_pairing_code_at(code.clone(), public_key, 300, now_nanos);
            BrokerOutcome {
                reply: Ok(Some(RendezvousMessage::HostRegistered { pairing_code: code })),
                forward: Vec::new(),
            }
        },
        RendezvousMessage::RequestPairing { code, name, public_key } => {
            *device_key = Some(public_key.clone());
            peers.insert(public_key.clone(), sender);
            match store.consume_pairing_code_at(code.as_str(), now_nanos) {
                Err(_) => BrokerOutcome {
                    reply: Err(string_from("Invalid pairing code or expired")),
                    forward: Vec::new(),
                },
                Ok(host_public_key) => match peers.get(host_public_key.as_str()) {
                    Some(host_peer) => {
                        let mut forward: Vec<(u64, RendezvousMessage)> = Vec::new();
                        forward.push(
                            (
                                *host_peer,
                                RendezvousMessage::ClientMatched {
                                    client_name: name,
                                    client_public_key: public_key,
                                },
                            ),
                        );
                        BrokerOutcome {
                            reply: Ok(
                                Some(
                                    RendezvousMessage::PairingMatched {
                                        host_name: string_from("Remote Host"),
                                        host_public_key,
                                    },
                                ),
                            ),
                            forward,
                        }
                    },
                    None => BrokerOutcome {
                        reply: Err(string_from("Matched host is currently offline")),
                        forward: Vec::new(),
                    },
                },
            }
        },
        RendezvousMessage::SendCandidates { target_public_key, candidates } => {
            match device_key {
                None => BrokerOutcome {
                    reply: Err(string_from("Not registered")),
                    forward: Vec::new(),
                },
                Some(from) => match peers.get(target_public_key.as_str()) {
                    Some(target_peer) => {
                        let mut forward: Vec<(u64, RendezvousMessage)> = Vec::new();
                        forward.push(
                            (
                                *target_peer,
                                RendezvousMessage::CandidatesReceived {
                                    from_public_key: from.clone(),
                                    candidates,
                                },
                            ),
                        );
                        BrokerOutcome { reply: Ok(None), forward }
                    },
                    None => BrokerOutcome {
                        reply: Err(string_from("Target peer is offline")),
                        forward: Vec::new(),
                    },
                },
            }
        },
        _ => BrokerOutcome {
            reply: Err(string_from("Invalid command sent to signaling server")),
            forward: Vec::new(),
        },
    }
}

/// Handles one message from a peer: a host that registers gets a fresh
/// random six-digit code that lives for five minutes.
pub fn handle_message(
    msg: RendezvousMessage,
    store: &mut InMemoryStore,
    peers: &mut KeyedList<u64>,
    sender: u64,
    device_key: &mut Option<String>,
) -> (r: BrokerOutcome)
    ensures
        exists|pairing_number: nat, now_nanos: u128|
            pairing_number < 1000000 && broker_next(
                *old(store),
                old(peers)@,
                *old(device_key),
                msg,
                sender,
                pairing_number,
                now_nanos,
                *final(store),
                final(peers)@,
                *final(device_key),
                r,
            ),
{
    let n = random_code_number();
    let now = store.now_nanos();
    handle_message_at(msg, store, peers, sender, device_key, n, now)
}

/// What goes back to the sender for a handled message: the reply, nothing,
/// or the refusal as an `Error` message.
pub fn reply_to_sender(reply: Result<Option<RendezvousMessage>, String>) -> (r: Option<
    RendezvousMessage,
>)
    ensures
        match reply {
            Ok(m) => r == m,
            Err(message) => r == Some(RendezvousMessage::Error { message }),
        },
{
    match reply {
        Ok(m) => m,
        Err(message) => Some(RendezvousMessage::Error { message }),
    }
}

/// When a connection closes, the peer it registered, if any, leaves the
/// table of reachable peers; nothing else changes.
pub fn peer_disconnected(peers: &mut KeyedList<u64>, device_key: &Option<String>)
    ensures
        match device_key {
            Some(key) => final(peers)@ == old(peers)@.remove(key@),
            None => final(peers)@ == old(peers)@,
        },
{
    if let Some(key) = device_key {
        let _ = peers.remove(key.as_str());
    }
}

} // verus!
