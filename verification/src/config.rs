//! Device configuration: identity keys, the trusted-device list, the
//! configuration directory and the session audit log.
use vstd::prelude::*;
use crate::keys::{
    base64_decoding, base64_encode, base64_encoding, ed25519_public_key_of, fingerprint_of,
    get_fingerprint, key_bytes_from_text, parse_verifying_key, ed25519_point_valid, CoreError,
    SigningKey,
};
use crate::text::{
    decimal_text, push_decimal_text, str_equal, string_append, string_from, string_of_chars,
    trim_text, trimmed,
};

verus! {

/// A client device that may connect without interactive consent.
#[derive(Debug, Clone)]
pub struct TrustedDevice {
    pub name: String,
    pub fingerprint: String,
    /// Base64 text of the device's Ed25519 public key.
    pub public_key: String,
}

/// The persistent configuration of a device.
#[derive(Debug, Clone)]
pub struct Config {
    pub device_name: String,
    /// Base64 text of the 32-byte Ed25519 secret seed.
    pub private_key: String,
    /// Base64 text of the 32-byte Ed25519 public key.
    pub public_key: String,
    pub trusted_devices: Vec<TrustedDevice>,
}

/// Whether some device of the list has the fingerprint.
pub open spec fn trusts(devices: Seq<TrustedDevice>, fingerprint: Seq<char>) -> bool {
    exists|i: int| 0 <= i < devices.len() && (#[trigger] devices[i]).fingerprint@ == fingerprint
}

/// The devices of the list whose fingerprint differs from the given one.
pub open spec fn without_fingerprint(devices: Seq<TrustedDevice>, fingerprint: Seq<char>) -> Seq<
    TrustedDevice,
> {
    devices.filter(|d: TrustedDevice| d.fingerprint@ != fingerprint)
}

impl Config {
    /// Whether a device with the fingerprint is trusted.
    pub fn is_trusted(&self, fingerprint: &str) -> (r: bool)
        ensures
            r == trusts(self.trusted_devices@, fingerprint@),
    {
        let mut i: usize = 0;
        while i < self.trusted_devices.len()
            invariant
                i <= self.trusted_devices@.len(),
                forall|j: int|
                    0 <= j < i ==> (#[trigger] self.trusted_devices@[j]).fingerprint@
                        != fingerprint@,
            decreases self.trusted_devices@.len() - i,
        {
            if str_equal(self.trusted_devices[i].fingerprint.as_str(), fingerprint) {
                return true;
            }
            i = i + 1;
        }
        false
    }

    /// Adds a device to the trusted list.
    pub fn add_trusted(&mut self, device: TrustedDevice)
        ensures
            final(self).trusted_devices@ == old(self).trusted_devices@.push(device),
            final(self).device_name == old(self).device_name,
            final(self).private_key == old(self).private_key,
            final(self).public_key == old(self).public_key,
    {
        self.trusted_devices.push(device);
    }

    /// Removes every device with the fingerprint; tells whether one was
    /// removed.
    pub fn remove_trusted(&mut self, fingerprint: &str) -> (r: bool)
        ensures
            final(self).trusted_devices@ == without_fingerprint(
                old(self).trusted_devices@,
                fingerprint@,
            ),
            r == trusts(old(self).trusted_devices@, fingerprint@),
            final(self).device_name == old(self).device_name,
            final(self).private_key == old(self).private_key,
            final(self).public_key == old(self).public_key,
    {
        let ghost before = self.trusted_devices@;
        let n = self.trusted_devices.len();
        let mut i: usize = 0;
        let mut j: usize = 0;
        let mut removed = false;
        while i < self.trusted_devices.len()
            invariant
                j <= before.len(),
                before.len() == n,
                i <= self.trusted_devices@.len(),
                self.trusted_devices@ == without_fingerprint(before.take(j as int), fingerprint@)
                    + before.skip(j as int),
                i == without_fingerprint(before.take(j as int), fingerprint@).len(),
                self.trusted_devices@.len() - i == before.len() - j,
                removed == trusts(before.take(j as int), fingerprint@),
                self.device_name == old(self).device_name,
                self.private_key == old(self).private_key,
                self.public_key == old(self).public_key,
            decreases self.trusted_devices@.len() - i,
        {
            let ghost cur = self.trusted_devices@;
            proof {
                assert(j < before.len());
                assert(cur[i as int] == before[j as int]);
                assert(before.take(j + 1) =~= before.take(j as int).push(before[j as int]));
                lemma_without_fingerprint_push(before.take(j as int), before[j as int], fingerprint@);
                lemma_trusts_push(before.take(j as int), before[j as int], fingerprint@);
                assert(before.skip(j as int) =~= seq![before[j as int]] + before.skip(j + 1));
            }
            if str_equal(self.trusted_devices[i].fingerprint.as_str(), fingerprint) {
                self.trusted_devices.remove(i);
                removed = true;
                proof {
                    assert(self.trusted_devices@ =~= without_fingerprint(
                        before.take(j + 1),
                        fingerprint@,
                    ) + before.skip(j + 1));
                }
            } else {
                proof {
                    assert(self.trusted_devices@ =~= without_fingerprint(
                        before.take(j + 1),
                        fingerprint@,
                    ) + before.skip(j + 1));
                }
                i = i + 1;
            }
            j = j + 1;
        }
        proof {
            assert(before.take(j as int) =~= before);
            assert(before.skip(j as int) =~= Seq::<TrustedDevice>::empty());
            assert(self.trusted_devices@ =~= without_fingerprint(before, fingerprint@));
        }
        removed
    }

    /// Forgets every trusted device.
    pub fn clear_trusted(&mut self)
        ensures
            final(self).trusted_devices@ == Seq::<TrustedDevice>::empty(),
            final(self).device_name == old(self).device_name,
            final(self).private_key == old(self).private_key,
            final(self).public_key == old(self).public_key,
    {
        self.trusted_devices.clear();
    }

    /// Enrolls a device given its name and the Base64 text of its public
    /// key; returns the device's fingerprint. A key that is not 32 bytes of
    /// a curve point is refused and the list is left unchanged.
    pub fn trust_device(&mut self, name: String, public_key_b64: String) -> (r: Result<
        String,
        CoreError,
    >)
        ensures
            match r {
                Ok(fp) => {
                    &&& fp@ == fingerprint_of(public_key_b64@)
                    &&& final(self).trusted_devices@.len() == old(self).trusted_devices@.len()
                        + 1
                    &&& final(self).trusted_devices@.drop_last() == old(
                        self,
                    ).trusted_devices@
                    &&& final(self).trusted_devices@.last().name == name
                    &&& final(self).trusted_devices@.last().public_key == public_key_b64
                    &&& final(self).trusted_devices@.last().fingerprint@ == fp@
                },
                Err(e) => {
                    &&& e is InvalidKey
                    &&& final(self).trusted_devices@ == old(self).trusted_devices@
                },
            },
            r is Ok <==> (key_bytes_from_text(public_key_b64@) is Some && ed25519_point_valid(
                key_bytes_from_text(public_key_b64@)->0,
            )),
            final(self).device_name == old(self).device_name,
            final(self).private_key == old(self).private_key,
            final(self).public_key == old(self).public_key,
    {
        match parse_verifying_key(public_key_b64.as_str()) {
            Ok(_) => {
                let fp = get_fingerprint(public_key_b64.as_str());
                let fp_copy = fp.clone();
                self.trusted_devices.push(
                    TrustedDevice { name, fingerprint: fp, public_key: public_key_b64 },
                );
                proof {
                    assert(self.trusted_devices@.drop_last() =~= old(self).trusted_devices@);
                }
                Ok(fp_copy)
            },
            Err(e) => Err(e),
        }
    }
}

proof fn lemma_without_fingerprint_push(
    devices: Seq<TrustedDevice>,
    d: TrustedDevice,
    fingerprint: Seq<char>,
)
    ensures
        without_fingerprint(devices.push(d), fingerprint) == if d.fingerprint@ != fingerprint {
            without_fingerprint(devices, fingerprint).push(d)
        } else {
            without_fingerprint(devices, fingerprint)
        },
{
    reveal_with_fuel(Seq::filter, 1);
    assert(devices.push(d).drop_last() =~= devices);
}

proof fn lemma_trusts_push(devices: Seq<TrustedDevice>, d: TrustedDevice, fingerprint: Seq<char>)
    ensures
        trusts(devices.push(d), fingerprint) == (trusts(devices, fingerprint)
            || d.fingerprint@ == fingerprint),
{
    let after = devices.push(d);
    assert(after[devices.len() as int] == d);
    if trusts(after, fingerprint) && d.fingerprint@ != fingerprint {
        let i = choose|i: int|
            0 <= i < after.len() && (#[trigger] after[i]).fingerprint@ == fingerprint;
        assert(devices[i] == after[i]);
    }
    if trusts(devices, fingerprint) {
        let i = choose|i: int|
            0 <= i < devices.len() && (#[trigger] devices[i]).fingerprint@ == fingerprint;
        assert(after[i] == devices[i]);
    }
}

/// What `str::to_uppercase` gives for a text: each character replaced by
/// its Unicode upper-case mapping (a few map to more than one character).
pub uninterp spec fn upper_case(text: Seq<char>) -> Seq<char>;

/// `str::to_uppercase`.
#[verifier::external_body]
fn to_upper_case(text: &str) -> (r: String)
    ensures
        r@ == upper_case(text@),
{
    text.to_uppercase()
}

/// A fingerprint as an operator typed it, made ready for lookup in the
/// trusted list: without surrounding white space, in upper case.
pub fn normalize_fingerprint(text: &str) -> (r: String)
    ensures
        r@ == upper_case(trimmed(text@)),
{
    let t = trim_text(text);
    to_upper_case(t.as_str())
}

/// Adding a device makes its fingerprint trusted, and leaves every other
/// fingerprint as it was.
pub proof fn law_trust_after_add(devices: Seq<TrustedDevice>, device: TrustedDevice, other: Seq<
    char,
>)
    ensures
        trusts(devices.push(device), device.fingerprint@),
        other != device.fingerprint@ ==> (trusts(devices.push(device), other) == trusts(
            devices,
            other,
        )),
{
    lemma_trusts_push(devices, device, device.fingerprint@);
    lemma_trusts_push(devices, device, other);
}

/// Removing a fingerprint revokes it, and leaves every other fingerprint
/// as it was.
pub proof fn law_remove_revokes(devices: Seq<TrustedDevice>, fingerprint: Seq<char>, other: Seq<
    char,
>)
    ensures
        !trusts(without_fingerprint(devices, fingerprint), fingerprint),
        other != fingerprint ==> (trusts(without_fingerprint(devices, fingerprint), other)
            == trusts(devices, other)),
    decreases devices.len(),
{
    if devices.len() > 0 {
        let rest = devices.drop_last();
        let d = devices.last();
        assert(rest.push(d) =~= devices);
        law_remove_revokes(rest, fingerprint, other);
        lemma_without_fingerprint_push(rest, d, fingerprint);
        lemma_trusts_push(rest, d, other);
        lemma_trusts_push(rest, d, fingerprint);
        if d.fingerprint@ != fingerprint {
            lemma_trusts_push(without_fingerprint(rest, fingerprint), d, fingerprint);
            lemma_trusts_push(without_fingerprint(rest, fingerprint), d, other);
        }
    } else {
        assert(without_fingerprint(devices, fingerprint) =~= Seq::<TrustedDevice>::empty()) by {
            reveal_with_fuel(Seq::filter, 1);
        }
    }
}

// ---------------------------------------------------------------------------
// Paths
// ---------------------------------------------------------------------------
/// A file or directory name without separators or drive prefix.
pub open spec fn is_plain_name(name: Seq<char>) -> bool {
    &&& name.len() > 0
    &&& name != seq!['.'] && name != seq!['.', '.']
    &&& forall|i: int| 0 <= i < name.len() ==> name[i] != '/' && name[i] != '\\' && name[i] != ':'
}

/// A Windows verbatim path, which starts with `\\\\?\\`.
pub open spec fn is_verbatim(base: Seq<char>) -> bool {
    base.len() >= 4 && base.take(4) == seq!['\\', '\\', '?', '\\']
}

/// A bare Windows drive prefix such as `C:`: one ASCII letter and a colon.
pub open spec fn is_drive_prefix(base: Seq<char>) -> bool {
    &&& base.len() == 2
    &&& base[1] == ':'
    &&& ('a' <= base[0] <= 'z' || 'A' <= base[0] <= 'Z')
}

/// `path` is `base` with `name` adjoined as `Path::join` does it: the name
/// alone onto an empty base (of a Windows verbatim base only that some
/// text results); the base and the name where the base already
/// ends in `/`; where it ends in `\\` or is a bare drive prefix, no
/// separator on Windows and `/` elsewhere; and otherwise the base, the
/// platform's separator (`/`, or `\\` on Windows) and the name.
pub open spec fn is_joined(path: Seq<char>, base: Seq<char>, name: Seq<char>) -> bool {
    if is_verbatim(base) {
        // Windows normalizes a verbatim base as it joins, so only that
        // some text results is claimed for it.
        path.len() > 0
    } else if base.len() == 0 {
        path == name
    } else if base.last() == '/' {
        path == base + name
    } else if base.last() == '\\' || is_drive_prefix(base) {
        ||| path == base + name
        ||| path == base + seq!['/'] + name
    } else {
        ||| path == base + seq!['/'] + name
        ||| path == base + seq!['\\'] + name
    }
}

/// `path` is some base path with `name` adjoined.
pub open spec fn ends_in_name(path: Seq<char>, name: Seq<char>) -> bool {
    exists|base: Seq<char>| #[trigger] is_joined(path, base, name)
}

/// `Path::join` of a relative, separator-free name onto a base path, as
/// its documentation describes it: the base, the platform's separator
/// where the base does not already end in one (nor is a bare drive prefix
/// on Windows), and the name. The base is valid UTF-8, so the conversion
/// back to text loses nothing.
#[verifier::external_body]
fn path_join(base: &str, name: &str) -> (r: String)
    requires
        is_plain_name(name@),
    ensures
        is_joined(r@, base@, name@),
{
    std::path::Path::new(base).join(name).to_string_lossy().into_owned()
}

/// `dirs::config_dir`: the user's configuration directory, where the
/// platform has one. What it is depends on the environment; nothing is
/// claimed of it.
#[verifier::external_body]
fn user_config_dir() -> (r: Option<String>) {
    dirs::config_dir().map(|p| p.to_string_lossy().into_owned())
}

/// Where a device keeps its configuration.
pub struct ConfigManager {
    config_dir: String,
    config_path: String,
}

impl ConfigManager {
    /// The location of `config.json` below a directory.
    pub fn at(config_dir: &str) -> (r: ConfigManager)
        ensures
            r.dir_text() == config_dir@,
            is_joined(r.path_text(), config_dir@, "config.json"@),
    {
        proof {
            reveal_strlit("config.json");
        }
        let config_path = path_join(config_dir, "config.json");
        ConfigManager { config_dir: string_from(config_dir), config_path }
    }

    /// The configuration directory: the given one, or `ASCIIDesk` below the
    /// user's configuration directory (`below_user_dir` of what the platform
    /// names). Without a given directory this fails with `ConfigDirNotFound`
    /// where the platform has no user configuration directory.
    pub fn new(custom_path: Option<&str>) -> (r: Result<ConfigManager, CoreError>)
        ensures
            custom_path is Some ==> r is Ok && r->Ok_0.dir_text() == custom_path->0@,
            custom_path is None && r is Ok ==> ends_in_name(r->Ok_0.dir_text(), "ASCIIDesk"@),
            r is Err ==> custom_path is None && r->Err_0 is ConfigDirNotFound,
            r is Ok ==> is_joined(r->Ok_0.path_text(), r->Ok_0.dir_text(), "config.json"@),
    {
        match custom_path {
            Some(dir) => {
                let m = ConfigManager::at(dir);
                assert(m.dir_text() == dir@);
                Ok(m)
            },
            None => match user_config_dir() {
                Some(base) => {
                    let m = ConfigManager::below_user_dir(base.as_str());
                    assert(ends_in_name(m.dir_text(), "ASCIIDesk"@));
                    Ok(m)
                },
                None => Err(CoreError::ConfigDirNotFound),
            },
        }
    }

    /// The configuration kept in `ASCIIDesk` below the user's
    /// configuration directory `base`.
    pub fn below_user_dir(base: &str) -> (r: ConfigManager)
        ensures
            is_joined(r.dir_text(), base@, "ASCIIDesk"@),
            is_joined(r.path_text(), r.dir_text(), "config.json"@),
    {
        proof {
            reveal_strlit("ASCIIDesk");
        }
        let dir = path_join(base, "ASCIIDesk");
        ConfigManager::at(dir.as_str())
    }

    pub closed spec fn dir_text(&self) -> Seq<char> {
        self.config_dir@
    }

    /// The configuration directory.
    pub fn config_dir(&self) -> (r: &str)
        ensures
            r@ == self.dir_text(),
    {
        self.config_dir.as_str()
    }

    pub closed spec fn path_text(&self) -> Seq<char> {
        self.config_path@
    }

    /// The path of `config.json`.
    pub fn config_path(&self) -> (r: &str)
        ensures
            r@ == self.path_text(),
    {
        self.config_path.as_str()
    }

    /// A fresh configuration: a new random identity key, no trusted
    /// devices, and the default device name for the host name.
    pub fn generate_default_config(&self, hostname: Option<&str>) -> (r: Config)
        ensures
            r.device_name@ == default_device_name(hostname),
            r.trusted_devices@.len() == 0,
            key_bytes_from_text(r.private_key@) is Some,
            r.public_key@ == base64_encoding(
                ed25519_public_key_of(key_bytes_from_text(r.private_key@)->0),
            ),
    {
        let key = SigningKey::generate();
        config_from_key(&key, hostname)
    }
}

/// The device name that a fresh configuration gets.
pub open spec fn default_device_name(hostname: Option<&str>) -> Seq<char> {
    "asciidesk-"@ + match hostname {
        Some(h) => h@,
        None => "Unknown Device"@,
    }
}

/// The configuration for an identity key.
pub fn config_from_key(key: &SigningKey, hostname: Option<&str>) -> (r: Config)
    ensures
        r.device_name@ == default_device_name(hostname),
        r.trusted_devices@.len() == 0,
        r.private_key@ == base64_encoding(key@),
        key_bytes_from_text(r.private_key@) == Some(key@),
        r.public_key@ == base64_encoding(ed25519_public_key_of(key@)),
{
    let seed = key.to_bytes();
    let public_key = key.verifying_key().to_bytes();
    let private_key = base64_encode(seed.as_slice());
    let public_key = base64_encode(public_key.as_slice());
    let mut device_name = string_from("asciidesk-");
    match hostname {
        Some(h) => string_append(&mut device_name, h),
        None => string_append(&mut device_name, "Unknown Device"),
    }
    Config { device_name, private_key, public_key, trusted_devices: Vec::new() }
}

// ---------------------------------------------------------------------------
// Audit log
// ---------------------------------------------------------------------------
/// The audit log of sessions, `session_audit.log` in the configuration
/// directory.
pub struct AuditLogger {
    log_path: String,
}

/// The label of the outcome field of an audit line.
pub open spec fn outcome_label() -> Seq<char> {
    seq!['V', 'e', 'r', 'd', 'i', 'c', 't']
}

/// One line of the audit log.
pub open spec fn audit_line(
    timestamp: Seq<char>,
    fingerprint: Seq<char>,
    ip: Seq<char>,
    decision: Seq<char>,
    mode: Seq<char>,
    duration_secs: Option<u64>,
) -> Seq<char> {
    "["@ + timestamp + "] Fingerprint: "@ + fingerprint + " | IP: "@ + ip + " | "@
        + outcome_label() + ": "@ + decision + " | Mode: "@ + mode + " | Duration: "@ + match duration_secs {
        Some(s) => decimal_text(s as nat) + "s"@,
        None => "N/A"@,
    } + "\n"@
}

impl AuditLogger {
    /// The log in a configuration directory.
    pub fn new(config_dir: &str) -> (r: AuditLogger)
        ensures
            is_joined(r.path_text(), config_dir@, "session_audit.log"@),
    {
        proof {
            reveal_strlit("session_audit.log");
        }
        AuditLogger { log_path: path_join(config_dir, "session_audit.log") }
    }

    pub closed spec fn path_text(&self) -> Seq<char> {
        self.log_path@
    }

    /// The path of the log file.
    pub fn log_path(&self) -> (r: &str)
        ensures
            r@ == self.path_text(),
    {
        self.log_path.as_str()
    }

    /// The line recorded for a session: when, which client, from where,
    /// the decision, the mode and, where known, how long it lasted.
    pub fn format_entry(
        timestamp: &str,
        client_fingerprint: &str,
        client_ip: &str,
        decision: &str,
        mode: &str,
        duration_secs: Option<u64>,
    ) -> (r: String)
        ensures
            r@ == audit_line(
                timestamp@,
                client_fingerprint@,
                client_ip@,
                decision@,
                mode@,
                duration_secs,
            ),
    {
        let mut line = string_from("[");
        string_append(&mut line, timestamp);
        string_append(&mut line, "] Fingerprint: ");
        string_append(&mut line, client_fingerprint);
        string_append(&mut line, " | IP: ");
        string_append(&mut line, client_ip);
        string_append(&mut line, " | ");
        let label = ['V', 'e', 'r', 'd', 'i', 'c', 't'];
        assert(label@ =~= outcome_label());
        string_append(&mut line, string_of_chars(&label).as_str());
        string_append(&mut line, ": ");
        string_append(&mut line, decision);
        string_append(&mut line, " | Mode: ");
        string_append(&mut line, mode);
        string_append(&mut line, " | Duration: ");
        match duration_secs {
            Some(s) => {
                push_decimal_text(&mut line, s);
                string_append(&mut line, "s");
            },
            None => string_append(&mut line, "N/A"),
        }
        string_append(&mut line, "\n");
        line
    }
}

} // verus!
