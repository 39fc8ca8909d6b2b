//! Decisions of the online activation protocol: the request bodies sent to
//! the license authority, and what each response status means for the
//! record and the caller. The transport itself is the caller's business;
//! every rule about the exchange is verified here.

use vstd::prelude::*;

use crate::codec::{enc_string, parse_license, push_json_string, spec_parse_license};
use crate::license::{License, LicenseError, LicenseView};
use crate::strutil::{enc_u64, push_str, push_u64_decimal};

verus! {

/// The body posted to activate a key: the binding claim and the key,
/// as one compact JSON object with its fields in name order.
pub open spec fn spec_activate_request(key: Seq<char>, fingerprint: Seq<char>) -> Seq<char> {
    "{\"hardware_fingerprint\":"@ + enc_string(fingerprint) + ",\"license_key\":"@ + enc_string(key)
        + "}"@
}

/// The body posted to re-validate or deactivate a license: its id, its key
/// and the binding claim, as one compact JSON object with its fields in
/// name order.
pub open spec fn spec_record_request(id: Seq<char>, key: Seq<char>, fingerprint: Seq<char>) -> Seq<
    char,
> {
    "{\"hardware_fingerprint\":"@ + enc_string(fingerprint) + ",\"license_id\":"@ + enc_string(id)
        + ",\"license_key\":"@ + enc_string(key) + "}"@
}

/// Build the activation request body for a license key and the machine's
/// canonical binding claim.
pub fn activate_request_body(license_key: &str, fingerprint: &str) -> (r: String)
    ensures
        r@ == spec_activate_request(license_key@, fingerprint@),
{
    let mut out = String::new();
    push_str(&mut out, "{\"hardware_fingerprint\":");
    push_json_string(&mut out, fingerprint);
    push_str(&mut out, ",\"license_key\":");
    push_json_string(&mut out, license_key);
    push_str(&mut out, "}");
    out
}

/// Build the validation or deactivation request body for a license and the
/// machine's canonical binding claim.
pub fn record_request_body(license: &License, fingerprint: &str) -> (r: String)
    ensures
        r@ == spec_record_request(license@.id, license@.key, fingerprint@),
{
    let mut out = String::new();
    push_str(&mut out, "{\"hardware_fingerprint\":");
    push_json_string(&mut out, fingerprint);
    push_str(&mut out, ",\"license_id\":");
    push_json_string(&mut out, license.id.as_str());
    push_str(&mut out, ",\"license_key\":");
    push_json_string(&mut out, license.key.as_str());
    push_str(&mut out, "}");
    out
}

/// Whether an HTTP status reports success.
pub open spec fn is_success_status(status: u16) -> bool {
    200 <= status < 300
}

/// What the validation endpoint's status means: success exactly for a
/// success status; `InvalidKey` for 401 and 403; `Revoked` for 410; a
/// generic network error, naming the status, for anything else.
pub open spec fn validate_status_outcome(status: u16, r: Result<(), LicenseError>) -> bool {
    &&& (is_success_status(status) <==> r is Ok)
    &&& ((status == 401 || status == 403) ==> (r matches Err(e) && (e matches
        LicenseError::InvalidKey(m) && m@ == "License key rejected"@)))
    &&& (status == 410 ==> (r matches Err(e) && (e matches LicenseError::Revoked)))
    &&& ((!is_success_status(status) && status != 401 && status != 403 && status != 410) ==> (
    r matches Err(e) && (e matches LicenseError::NetworkError(m) && m@ == "Server returned "@
        + enc_u64(status as nat))))
}

/// Classify the status returned by the validation endpoint.
pub fn classify_validate_status(status: u16) -> (r: Result<(), LicenseError>)
    ensures
        validate_status_outcome(status, r),
{
    if 200 <= status && status < 300 {
        Ok(())
    } else if status == 401 || status == 403 {
        Err(LicenseError::InvalidKey("License key rejected".to_owned()))
    } else if status == 410 {
        Err(LicenseError::Revoked)
    } else {
        let mut m = String::new();
        push_str(&mut m, "Server returned ");
        push_u64_decimal(&mut m, status as u64);
        Err(LicenseError::NetworkError(m))
    }
}

/// Apply the validation endpoint's response to the in-memory record: on
/// success the grace-period clock is reset to `now` — the sole mechanism
/// that resets it — and the updated record should be persisted; on any
/// failure the record is left untouched and nothing may be persisted.
pub fn validate_online_response(license: &mut License, status: u16, now: i64) -> (r: Result<
    (),
    LicenseError,
>)
    ensures
        validate_status_outcome(status, r),
        r is Ok ==> final(license)@ == (LicenseView {
            last_validated: Some(now as int),
            ..old(license)@
        }),
        r is Err ==> *final(license) == *old(license),
{
    match classify_validate_status(status) {
        Ok(()) => {
            license.last_validated = Some(now);
            Ok(())
        },
        Err(e) => Err(e),
    }
}

/// What the activation endpoint's exchange means: any non-success status is
/// an invalid key; on success the response body must hold one canonical
/// license record, which becomes the wholly new record, and any other body
/// is an `InvalidFormat` failure.
pub fn activate_response(status: u16, body: &str) -> (r: Result<License, LicenseError>)
    ensures
        !is_success_status(status) ==> (r matches Err(e) && (e matches LicenseError::InvalidKey(m)
            && m@ == "Failed to activate license"@)),
        is_success_status(status) ==> (match spec_parse_license(body@) {
            Some(v) => r matches Ok(l) && l@ == v,
            None => r matches Err(e) && (e matches LicenseError::InvalidFormat(_)),
        }),
{
    if !(200 <= status && status < 300) {
        return Err(LicenseError::InvalidKey("Failed to activate license".to_owned()));
    }
    parse_license(body)
}

/// What the deactivation exchange means for the caller: nothing. The
/// notification is best effort — whatever the server answered, and whether
/// it was reachable at all, the local record is removed and the operation
/// reports success.
pub fn deactivate_outcome(network: &Result<u16, String>) -> (r: Result<(), LicenseError>)
    ensures
        r is Ok,
{
    let _ = network;
    Ok(())
}

} // verus!
