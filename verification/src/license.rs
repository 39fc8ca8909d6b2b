//! The license record, the machine fingerprint it can be bound to, and the
//! closed set of failures that license handling can report.
//!
//! Timestamps are UTC seconds since the epoch, held as `i64`. The machine
//! fingerprint is derived from plain probe values that the caller gathers
//! from the platform; deriving it, comparing it and folding it into its
//! canonical string form are verified here.

use vstd::prelude::*;

use crate::strutil::{filter_alnum, filter_alphanumeric, push_str};

verus! {

/// Subscription level of a license.
#[derive(Clone, Copy, Debug, PartialEq, Eq, Structural)]
pub enum SubscriptionTier {
    Free,
    Pro,
    Enterprise,
}

/// License validation errors: every fallible license operation reports one
/// of these.
#[derive(Debug, Clone)]
pub enum LicenseError {
    /// License file not found
    NotFound,
    /// License file is corrupted or invalid
    InvalidFormat(String),
    /// License has expired
    Expired,
    /// Hardware fingerprint mismatch
    HardwareMismatch,
    /// License key is invalid
    InvalidKey(String),
    /// License server unreachable
    ServerUnreachable,
    /// License has been revoked
    Revoked,
    /// IO error
    IoError(String),
    /// Network error during validation
    NetworkError(String),
    /// Grace period expired
    GracePeriodExpired,
}

/// The user-facing text of a license failure.
pub open spec fn spec_error_message(e: LicenseError) -> Seq<char> {
    match e {
        LicenseError::NotFound => "License file not found"@,
        LicenseError::InvalidFormat(msg) => "Invalid license format: "@ + msg@,
        LicenseError::Expired => "License has expired"@,
        LicenseError::HardwareMismatch => "License is bound to different hardware"@,
        LicenseError::InvalidKey(msg) => "Invalid license key: "@ + msg@,
        LicenseError::ServerUnreachable => "License server is unreachable"@,
        LicenseError::Revoked => "License has been revoked"@,
        LicenseError::IoError(msg) => "IO error: "@ + msg@,
        LicenseError::NetworkError(msg) => "Network error: "@ + msg@,
        LicenseError::GracePeriodExpired => "Offline grace period has expired"@,
    }
}

impl LicenseError {
    /// The user-facing text of this failure.
    pub fn message(&self) -> (r: String)
        ensures
            r@ == spec_error_message(*self),
    {
        match self {
            LicenseError::NotFound => "License file not found".to_owned(),
            LicenseError::InvalidFormat(msg) => {
                let mut out = String::new();
                push_str(&mut out, "Invalid license format: ");
                push_str(&mut out, msg.as_str());
                out
            },
            LicenseError::Expired => "License has expired".to_owned(),
            LicenseError::HardwareMismatch => "License is bound to different hardware".to_owned(),
            LicenseError::InvalidKey(msg) => {
                let mut out = String::new();
                push_str(&mut out, "Invalid license key: ");
                push_str(&mut out, msg.as_str());
                out
            },
            LicenseError::ServerUnreachable => "License server is unreachable".to_owned(),
            LicenseError::Revoked => "License has been revoked".to_owned(),
            LicenseError::IoError(msg) => {
                let mut out = String::new();
                push_str(&mut out, "IO error: ");
                push_str(&mut out, msg.as_str());
                out
            },
            LicenseError::NetworkError(msg) => {
                let mut out = String::new();
                push_str(&mut out, "Network error: ");
                push_str(&mut out, msg.as_str());
                out
            },
            LicenseError::GracePeriodExpired => "Offline grace period has expired".to_owned(),
        }
    }
}

/// Mathematical model of a [`HardwareFingerprint`].
#[verifier::ext_equal]
pub ghost struct FingerprintView {
    pub machine_id: Seq<char>,
    pub mac_hash: Option<Seq<char>>,
    pub os_id: Seq<char>,
    pub cpu_id: Option<Seq<char>>,
}

/// Hardware fingerprint for license binding.
#[derive(Debug, Clone)]
pub struct HardwareFingerprint {
    /// Machine ID or hostname hash
    pub machine_id: String,
    /// Primary MAC address hash
    pub mac_hash: Option<String>,
    /// OS identifier
    pub os_id: String,
    /// CPU identifier (optional)
    pub cpu_id: Option<String>,
}

impl View for HardwareFingerprint {
    type V = FingerprintView;

    open spec fn view(&self) -> FingerprintView {
        FingerprintView {
            machine_id: self.machine_id@,
            mac_hash: match self.mac_hash {
                Some(m) => Some(m@),
                None => None,
            },
            os_id: self.os_id@,
            cpu_id: match self.cpu_id {
                Some(c) => Some(c@),
                None => None,
            },
        }
    }
}

/// Raw identity probes for the current machine, as gathered by the caller:
/// platform identifiers are handed over verbatim (already trimmed of
/// surrounding whitespace), before any hashing.
#[derive(Debug, Clone)]
pub struct MachineProbes {
    /// Contents of a platform machine-id store, if one was readable.
    pub machine_id: Option<String>,
    /// Hostname, the fallback identity when no machine id is available.
    pub hostname: String,
    /// Operating system name.
    pub os: String,
    /// Processor architecture.
    pub arch: String,
    /// Operating system family.
    pub family: String,
    /// A non-loopback network interface address, if one was found.
    pub mac: Option<String>,
    /// CPU model string, if one was found.
    pub cpu: Option<String>,
}

/// The stable one-way digest that fingerprint fields are built from,
/// as a lowercase hexadecimal string.
pub uninterp spec fn hash64_hex_of(s: Seq<char>) -> Seq<char>;

/// Relies on `DefaultHasher` (`new`, `write` via `Hash::hash`, `finish`):
/// a digest that depends on the input string alone, formatted as lowercase
/// hexadecimal, hence at least one character long.
#[verifier::external_body]
fn hash_string(s: &str) -> (r: String)
    ensures
        r@ == hash64_hex_of(s@),
        r@.len() >= 1,
{
    let mut hasher = std::collections::hash_map::DefaultHasher::new();
    std::hash::Hash::hash(s, &mut hasher);
    format!("{:x}", std::hash::Hasher::finish(&hasher))
}

/// What `generate` promises of the machine-id field: the digest of the
/// platform machine id when one was probed, else the alphanumeric characters
/// of the hostname.
pub open spec fn spec_machine_id(machine_id: Option<Seq<char>>, hostname: Seq<char>) -> Seq<char> {
    match machine_id {
        Some(raw) => hash64_hex_of(raw),
        None => filter_alnum(hostname),
    }
}

/// The canonical string form of a fingerprint: machine id, OS id and MAC
/// hash (or `none`), joined with dashes. This is the form persisted in a
/// license record and transmitted as the binding claim.
pub open spec fn spec_canonical(fp: FingerprintView) -> Seq<char> {
    fp.machine_id + "-"@ + fp.os_id + "-"@ + match fp.mac_hash {
        Some(m) => m,
        None => "none"@,
    }
}

/// Whether two fingerprints match: machine id and OS id must be equal, and
/// the MAC hashes must be equal when both sides have one. Partial hardware
/// data is tolerated; data that exists on both sides must agree.
pub open spec fn spec_matches(a: FingerprintView, b: FingerprintView) -> bool {
    &&& a.machine_id == b.machine_id
    &&& a.os_id == b.os_id
    &&& match (a.mac_hash, b.mac_hash) {
        (Some(x), Some(y)) => x == y,
        _ => true,
    }
}

impl HardwareFingerprint {
    /// Derive the fingerprint for the machine described by `probes`: each
    /// identifier is digested, the machine id falling back to the
    /// alphanumeric characters of the hostname, and the OS id combining
    /// system, architecture and family.
    pub fn generate(probes: &MachineProbes) -> (fp: Self)
        ensures
            fp@.machine_id == spec_machine_id(
                match probes.machine_id {
                    Some(m) => Some(m@),
                    None => None,
                },
                probes.hostname@,
            ),
            fp@.os_id == probes.os@ + "-"@ + probes.arch@ + "-"@ + probes.family@,
            fp@.mac_hash == match probes.mac {
                Some(m) => Some(hash64_hex_of(m@)),
                None => None::<Seq<char>>,
            },
            fp@.cpu_id == match probes.cpu {
                Some(c) => Some(hash64_hex_of(c@)),
                None => None::<Seq<char>>,
            },
    {
        let machine_id = match &probes.machine_id {
            Some(raw) => hash_string(raw.as_str()),
            None => filter_alphanumeric(probes.hostname.as_str()),
        };
        let mut os_id = probes.os.clone();
        push_str(&mut os_id, "-");
        push_str(&mut os_id, probes.arch.as_str());
        push_str(&mut os_id, "-");
        push_str(&mut os_id, probes.family.as_str());
        let mac_hash = match &probes.mac {
            Some(m) => Some(hash_string(m.as_str())),
            None => None,
        };
        let cpu_id = match &probes.cpu {
            Some(c) => Some(hash_string(c.as_str())),
            None => None,
        };
        HardwareFingerprint { machine_id, mac_hash, os_id, cpu_id }
    }

    /// The canonical string form: the deterministic textual encoding used
    /// for equality comparison and as the wire-transmitted binding claim.
    pub fn canonical_string(&self) -> (r: String)
        ensures
            r@ == spec_canonical(self@),
    {
        let mut out = self.machine_id.clone();
        push_str(&mut out, "-");
        push_str(&mut out, self.os_id.as_str());
        push_str(&mut out, "-");
        match &self.mac_hash {
            Some(m) => push_str(&mut out, m.as_str()),
            None => push_str(&mut out, "none"),
        }
        out
    }

    /// Compare fingerprints with some tolerance: required fields must be
    /// equal, the MAC hash only when present on both sides.
    pub fn matches(&self, other: &HardwareFingerprint) -> (r: bool)
        ensures
            r == spec_matches(self@, other@),
    {
        if !(self.machine_id == other.machine_id) {
            return false;
        }
        if !(self.os_id == other.os_id) {
            return false;
        }
        if let (Some(a), Some(b)) = (&self.mac_hash, &other.mac_hash) {
            if !(*a == *b) {
                return false;
            }
        }
        true
    }
}

/// Relies on `chrono::Utc::now` (via `timestamp`): the current wall-clock
/// time as UTC seconds. Nothing is assumed of the clock's value.
#[verifier::external_body]
pub(crate) fn current_timestamp() -> i64 {
    chrono::Utc::now().timestamp()
}

/// Whole days in a span of `diff` seconds, rounded towards zero.
pub open spec fn days_of(diff: int) -> int {
    if diff >= 0 {
        diff / 86400
    } else {
        -((-diff) / 86400)
    }
}

/// Whole days from `earlier` to `later`, rounded towards zero; negative
/// when `later` precedes `earlier`.
pub fn days_between(later: i64, earlier: i64) -> (d: i64)
    ensures
        d == days_of(later as int - earlier as int),
{
    let diff: i128 = (later as i128) - (earlier as i128);
    if diff >= 0 {
        ((diff as u64) / 86400) as i64
    } else {
        -((((-diff) as u64) / 86400) as i64)
    }
}

/// Mathematical model of a [`License`].
#[verifier::ext_equal]
pub ghost struct LicenseView {
    pub id: Seq<char>,
    pub email: Seq<char>,
    pub name: Option<Seq<char>>,
    pub tier: SubscriptionTier,
    pub key: Seq<char>,
    pub issued_at: int,
    pub expires_at: int,
    pub hardware_fingerprint: Option<Seq<char>>,
    pub last_validated: Option<int>,
    pub stripe_customer_id: Option<Seq<char>>,
    pub stripe_subscription_id: Option<Seq<char>>,
    pub organization_id: Option<Seq<char>>,
    pub organization_name: Option<Seq<char>>,
    pub metadata: Seq<(Seq<char>, Seq<char>)>,
}

/// One license's full state: identity, tier, credential token, validity
/// window, hardware binding, the time of the last successful online check,
/// billing correlation identifiers and free-form metadata.
#[derive(Debug, Clone)]
pub struct License {
    /// Unique license ID
    pub id: String,
    /// User email
    pub email: String,
    /// User name
    pub name: Option<String>,
    /// Subscription tier
    pub tier: SubscriptionTier,
    /// License key (opaque credential token)
    pub key: String,
    /// When the license was issued, UTC seconds
    pub issued_at: i64,
    /// When the license expires, UTC seconds
    pub expires_at: i64,
    /// Canonical fingerprint string the license is bound to; unset means
    /// not yet bound
    pub hardware_fingerprint: Option<String>,
    /// Last successful online validation time, UTC seconds
    pub last_validated: Option<i64>,
    /// Billing customer ID for subscription management
    pub stripe_customer_id: Option<String>,
    /// Billing subscription ID
    pub stripe_subscription_id: Option<String>,
    /// Organization ID (for Enterprise)
    pub organization_id: Option<String>,
    /// Organization name (for Enterprise)
    pub organization_name: Option<String>,
    /// Additional metadata: key/value entries in insertion order
    pub metadata: Vec<(String, String)>,
}

/// View of an optional string field.
pub open spec fn opt_str_view(o: Option<String>) -> Option<Seq<char>> {
    match o {
        Some(s) => Some(s@),
        None => None,
    }
}

/// View of a metadata entry list.
pub open spec fn metadata_view(m: Seq<(String, String)>) -> Seq<(Seq<char>, Seq<char>)> {
    m.map_values(|p: (String, String)| (p.0@, p.1@))
}

impl View for License {
    type V = LicenseView;

    open spec fn view(&self) -> LicenseView {
        LicenseView {
            id: self.id@,
            email: self.email@,
            name: opt_str_view(self.name),
            tier: self.tier,
            key: self.key@,
            issued_at: self.issued_at as int,
            expires_at: self.expires_at as int,
            hardware_fingerprint: opt_str_view(self.hardware_fingerprint),
            last_validated: match self.last_validated {
                Some(t) => Some(t as int),
                None => None,
            },
            stripe_customer_id: opt_str_view(self.stripe_customer_id),
            stripe_subscription_id: opt_str_view(self.stripe_subscription_id),
            organization_id: opt_str_view(self.organization_id),
            organization_name: opt_str_view(self.organization_name),
            metadata: metadata_view(self.metadata@),
        }
    }
}

/// Whether a license is valid for the given machine fingerprint: an unbound
/// license passes for any machine; a bound one only where the binding equals
/// the machine's canonical string form.
pub open spec fn spec_valid_for_hardware(l: LicenseView, fp: FingerprintView) -> bool {
    match l.hardware_fingerprint {
        Some(bound) => bound == spec_canonical(fp),
        None => true,
    }
}

impl License {
    /// Create a new license, issued at the current wall-clock time, with no
    /// hardware binding, no validation history, and empty metadata.
    pub fn new(id: String, email: String, tier: SubscriptionTier, key: String, expires_at: i64) -> (l:
        Self)
        ensures
            l@.id == id@,
            l@.email == email@,
            l@.name is None,
            l@.tier == tier,
            l@.key == key@,
            l@.expires_at == expires_at as int,
            l@.hardware_fingerprint is None,
            l@.last_validated is None,
            l@.stripe_customer_id is None,
            l@.stripe_subscription_id is None,
            l@.organization_id is None,
            l@.organization_name is None,
            l@.metadata == Seq::<(Seq<char>, Seq<char>)>::empty(),
    {
        let issued_at = current_timestamp();
        let l = License {
            id,
            email,
            name: None,
            tier,
            key,
            issued_at,
            expires_at,
            hardware_fingerprint: None,
            last_validated: None,
            stripe_customer_id: None,
            stripe_subscription_id: None,
            organization_id: None,
            organization_name: None,
            metadata: Vec::new(),
        };
        proof {
            assert(l@.metadata =~= Seq::<(Seq<char>, Seq<char>)>::empty());
        }
        l
    }

    /// Whether the license is expired at time `now`.
    pub fn is_expired_at(&self, now: i64) -> (r: bool)
        ensures
            r == (now as int > self@.expires_at),
    {
        now > self.expires_at
    }

    /// Whether the license is expired at the current wall-clock time.
    pub fn is_expired(&self) -> bool {
        self.is_expired_at(current_timestamp())
    }

    /// Whether the license is valid for the machine with the given
    /// fingerprint: true when unbound, else exactly when the binding equals
    /// the fingerprint's canonical string form.
    pub fn is_valid_for_hardware(&self, fingerprint: &HardwareFingerprint) -> (r: bool)
        ensures
            r == spec_valid_for_hardware(self@, fingerprint@),
    {
        match &self.hardware_fingerprint {
            Some(bound) => {
                let canonical = fingerprint.canonical_string();
                *bound == canonical
            },
            None => true,
        }
    }

    /// Bind the license to the given machine: records its canonical string
    /// form; every other field is kept.
    pub fn bind_to_hardware(&mut self, fingerprint: &HardwareFingerprint)
        ensures
            final(self)@ == (LicenseView {
                hardware_fingerprint: Some(spec_canonical(fingerprint@)),
                ..old(self)@
            }),
    {
        self.hardware_fingerprint = Some(fingerprint.canonical_string());
    }

    /// Whole days until expiry at time `now`; negative once expired for a
    /// day or more.
    pub fn days_until_expiry_at(&self, now: i64) -> (d: i64)
        ensures
            d == days_of(self@.expires_at - now as int),
    {
        days_between(self.expires_at, now)
    }

    /// Whole days until expiry at the current wall-clock time.
    pub fn days_until_expiry(&self) -> i64 {
        self.days_until_expiry_at(current_timestamp())
    }
}

} // verus!
