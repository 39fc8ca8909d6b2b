//! Local license validation: the derived state machine over one license
//! record and one machine identity. Checks run in a fixed order — expiry
//! first, then hardware binding, then the offline grace period — so the
//! most fundamental failure is always the one reported.

use vstd::prelude::*;
use vstd::arithmetic::div_mod::{lemma_div_is_ordered, lemma_div_pos_is_pos};

use crate::license::{
    days_between, days_of, current_timestamp, spec_canonical, spec_valid_for_hardware,
    FingerprintView, HardwareFingerprint, License, LicenseError, LicenseView,
};

verus! {

/// Outcome of local validation at time `now`, for a license `l`, a machine
/// fingerprint `fp` and a grace period of `g` days: expiry is checked
/// first, then the hardware binding, then — only for licenses with a
/// validation history — the offline grace period.
pub open spec fn spec_validate(
    l: LicenseView,
    fp: FingerprintView,
    g: int,
    now: int,
) -> Result<(), LicenseError> {
    if now > l.expires_at {
        Err(LicenseError::Expired)
    } else if !spec_valid_for_hardware(l, fp) {
        Err(LicenseError::HardwareMismatch)
    } else {
        match l.last_validated {
            Some(last) => if days_of(now - last) > g {
                Err(LicenseError::GracePeriodExpired)
            } else {
                Ok(())
            },
            None => Ok(()),
        }
    }
}

/// Whether the license is inside a begun, not yet exhausted grace window
/// at time `now`: at least one whole day since the last online check, at
/// most `g`.
pub open spec fn spec_in_grace_period(l: LicenseView, g: int, now: int) -> bool {
    match l.last_validated {
        Some(last) => 0 < days_of(now - last) && days_of(now - last) <= g,
        None => false,
    }
}

/// Whole grace days left at time `now` for a last check at `last`: the
/// full period while `last` lies in the future, nothing once `g` days have
/// passed, the difference in between.
pub open spec fn spec_grace_remaining(g: int, last: int, now: int) -> int {
    let d = days_of(now - last);
    if d < 0 {
        g
    } else if d >= g {
        0
    } else {
        g - d
    }
}

/// License validator: holds the deployment's configuration — where the
/// license file lives, which authority to talk to, the grace period — and
/// the current machine's fingerprint.
pub struct LicenseValidator {
    /// License file path
    license_path: String,
    /// License server URL
    server_url: String,
    /// Offline grace period in days
    grace_period_days: i64,
    /// Current hardware fingerprint
    hardware_fingerprint: HardwareFingerprint,
}

impl LicenseValidator {
    /// The configured license file path.
    pub closed spec fn spec_path(&self) -> Seq<char> {
        self.license_path@
    }

    /// The configured license authority base URL.
    pub closed spec fn spec_server_url(&self) -> Seq<char> {
        self.server_url@
    }

    /// The configured offline grace period, in days.
    pub closed spec fn grace_days(&self) -> int {
        self.grace_period_days as int
    }

    /// The machine fingerprint this validator checks against.
    pub closed spec fn spec_fingerprint(&self) -> FingerprintView {
        self.hardware_fingerprint@
    }

    /// A validator is well formed when its grace period is a sane number
    /// of days.
    pub open spec fn wf(&self) -> bool {
        0 <= self.grace_days() <= 36500
    }

    /// Create a validator for the given license file path and machine
    /// fingerprint, talking to the default license authority, with the
    /// default offline grace period of seven days.
    pub fn new(license_path: String, hardware_fingerprint: HardwareFingerprint) -> (v: Self)
        ensures
            v.spec_path() == license_path@,
            v.spec_server_url() == "https://license.cxlinux.ai/api/v1"@,
            v.grace_days() == 7,
            v.spec_fingerprint() == hardware_fingerprint@,
            v.wf(),
    {
        LicenseValidator {
            license_path,
            server_url: "https://license.cxlinux.ai/api/v1".to_owned(),
            grace_period_days: 7,
            hardware_fingerprint,
        }
    }

    /// Get the license file path.
    pub fn license_path(&self) -> (r: &String)
        ensures
            r@ == self.spec_path(),
    {
        &self.license_path
    }

    /// Get the license authority base URL.
    pub fn server_url(&self) -> (r: &String)
        ensures
            r@ == self.spec_server_url(),
    {
        &self.server_url
    }

    /// Get the current hardware fingerprint.
    pub fn hardware_fingerprint(&self) -> (r: &HardwareFingerprint)
        ensures
            r@ == self.spec_fingerprint(),
    {
        &self.hardware_fingerprint
    }

    /// Validate a license at time `now`: expiry first, then hardware
    /// binding, then the offline grace period.
    pub fn validate_at(&self, license: &License, now: i64) -> (r: Result<(), LicenseError>)
        ensures
            r == spec_validate(license@, self.spec_fingerprint(), self.grace_days(), now as int),
    {
        if license.is_expired_at(now) {
            return Err(LicenseError::Expired);
        }
        if !license.is_valid_for_hardware(&self.hardware_fingerprint) {
            return Err(LicenseError::HardwareMismatch);
        }
        if let Some(last) = license.last_validated {
            let days_since_validation = days_between(now, last);
            if days_since_validation > self.grace_period_days {
                return Err(LicenseError::GracePeriodExpired);
            }
        }
        Ok(())
    }

    /// Validate a license at the current wall-clock time.
    pub fn validate(&self, license: &License) -> (r: Result<(), LicenseError>)
        ensures
            exists|now: int|
                r == spec_validate(license@, self.spec_fingerprint(), self.grace_days(), now),
    {
        let now = current_timestamp();
        let r = self.validate_at(license, now);
        proof {
            assert(r == spec_validate(
                license@,
                self.spec_fingerprint(),
                self.grace_days(),
                now as int,
            ));
        }
        r
    }

    /// Check if license is valid (simple check) at time `now`.
    pub fn is_valid_at(&self, license: &License, now: i64) -> (r: bool)
        ensures
            r == (spec_validate(
                license@,
                self.spec_fingerprint(),
                self.grace_days(),
                now as int,
            ) is Ok),
    {
        self.validate_at(license, now).is_ok()
    }

    /// Check if license is valid at the current wall-clock time.
    pub fn is_valid(&self, license: &License) -> (r: bool)
        ensures
            exists|now: int|
                r == (spec_validate(
                    license@,
                    self.spec_fingerprint(),
                    self.grace_days(),
                    now,
                ) is Ok),
    {
        let now = current_timestamp();
        let r = self.is_valid_at(license, now);
        proof {
            assert(r == (spec_validate(
                license@,
                self.spec_fingerprint(),
                self.grace_days(),
                now as int,
            ) is Ok));
        }
        r
    }

    /// Whether the license is inside the offline grace window at `now`.
    pub fn is_in_grace_period_at(&self, license: &License, now: i64) -> (r: bool)
        ensures
            r == spec_in_grace_period(license@, self.grace_days(), now as int),
    {
        if let Some(last) = license.last_validated {
            let days_since = days_between(now, last);
            days_since > 0 && days_since <= self.grace_period_days
        } else {
            false
        }
    }

    /// Whether the license is inside the offline grace window now.
    pub fn is_in_grace_period(&self, license: &License) -> (r: bool)
        ensures
            exists|now: int| r == spec_in_grace_period(license@, self.grace_days(), now),
    {
        let now = current_timestamp();
        let r = self.is_in_grace_period_at(license, now);
        proof {
            assert(r == spec_in_grace_period(license@, self.grace_days(), now as int));
        }
        r
    }

    /// Remaining grace days at time `now`: `None` for a license that was
    /// never validated online, else the clamped count of days left.
    pub fn grace_period_remaining_at(&self, license: &License, now: i64) -> (r: Option<u32>)
        requires
            self.wf(),
        ensures
            r == match license@.last_validated {
                Some(last) => Some(spec_grace_remaining(self.grace_days(), last, now as int) as u32),
                None => None::<u32>,
            },
    {
        match license.last_validated {
            Some(last) => {
                let days_since = days_between(now, last);
                if days_since < 0 {
                    Some(self.grace_period_days as u32)
                } else if days_since >= self.grace_period_days {
                    Some(0)
                } else {
                    Some((self.grace_period_days - days_since) as u32)
                }
            },
            None => None,
        }
    }

    /// Remaining grace days at the current wall-clock time.
    pub fn grace_period_remaining(&self, license: &License) -> (r: Option<u32>)
        requires
            self.wf(),
        ensures
            r is Some <==> license@.last_validated is Some,
    {
        let now = current_timestamp();
        self.grace_period_remaining_at(license, now)
    }
}

/// Expiry always wins: at any time past `expires_at`, validation reports
/// `Expired`, whatever the hardware binding or the grace state.
pub proof fn lemma_expiry_always_wins(l: LicenseView, fp: FingerprintView, g: int, now: int)
    requires
        now > l.expires_at,
    ensures
        spec_validate(l, fp, g, now) == Err::<(), LicenseError>(LicenseError::Expired),
{
}

/// A live license bound to some other machine's canonical string fails
/// validation with `HardwareMismatch`.
pub proof fn lemma_bound_to_other_hardware_fails(
    l: LicenseView,
    fp: FingerprintView,
    g: int,
    now: int,
)
    requires
        now <= l.expires_at,
        l.hardware_fingerprint is Some,
        l.hardware_fingerprint != Some(spec_canonical(fp)),
    ensures
        spec_validate(l, fp, g, now) == Err::<(), LicenseError>(LicenseError::HardwareMismatch),
{
}

/// A license with no hardware binding passes the hardware check for every
/// machine identity.
pub proof fn lemma_unbound_passes_any_hardware(l: LicenseView, fp: FingerprintView)
    requires
        l.hardware_fingerprint is None,
    ensures
        spec_valid_for_hardware(l, fp),
{
}

/// Rounding seconds to whole days preserves order.
proof fn lemma_days_of_monotone(a: int, b: int)
    requires
        a <= b,
    ensures
        days_of(a) <= days_of(b),
{
    if 0 <= a {
        lemma_div_is_ordered(a, b, 86400);
    } else if b < 0 {
        lemma_div_is_ordered(-b, -a, 86400);
    } else {
        lemma_div_pos_is_pos(-a, 86400);
        lemma_div_pos_is_pos(b, 86400);
    }
}

/// The remaining grace period is clamped to `[0, g]`.
pub proof fn lemma_grace_remaining_clamped(g: int, last: int, now: int)
    requires
        0 <= g,
    ensures
        0 <= spec_grace_remaining(g, last, now) <= g,
{
}

/// The remaining grace period is monotonically non-increasing as the last
/// successful online check moves further into the past.
pub proof fn lemma_grace_remaining_monotone(g: int, last1: int, last2: int, now: int)
    requires
        0 <= g,
        last1 <= last2,
    ensures
        spec_grace_remaining(g, last1, now) <= spec_grace_remaining(g, last2, now),
{
    lemma_days_of_monotone(now - last2, now - last1);
}

} // verus!
