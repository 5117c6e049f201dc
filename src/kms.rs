use vstd::prelude::*;

use crate::error::GatewayError;

verus! {

/// How many times a "not ready" answer of the KMS is retried.
pub const MAX_KMS_RETRIES: u32 = 3;

/// What to do after the KMS answered a key request.
#[derive(Debug, Clone, Copy, PartialEq, Eq, Structural)]
pub enum KmsStep {
    /// Wait, then ask again; the field counts the retries made so far.
    Retry(u32),
    /// The body holds the exported key.
    Ready,
    /// Give up with this error.
    Fail(GatewayError),
}

/// The step after status `status`, `retries` retries having been made.
pub open spec fn kms_step_spec(retries: u32, status: u16) -> KmsStep {
    if status == 200 {
        KmsStep::Ready
    } else if status == 202 {
        if retries < MAX_KMS_RETRIES {
            KmsStep::Retry((retries + 1) as u32)
        } else {
            KmsStep::Fail(GatewayError::KmsUnavailable)
        }
    } else {
        KmsStep::Fail(GatewayError::KmsRejected)
    }
}

/// Decides on the KMS's answer to a key request: 200 is ready, 202 is
/// retried up to three times, anything else is a rejection.
pub fn kms_step(retries: u32, status: u16) -> (r: KmsStep)
    ensures
        r == kms_step_spec(retries, status),
{
    if status == 200 {
        KmsStep::Ready
    } else if status == 202 {
        if retries < MAX_KMS_RETRIES {
            KmsStep::Retry(retries + 1)
        } else {
            KmsStep::Fail(GatewayError::KmsUnavailable)
        }
    } else {
        KmsStep::Fail(GatewayError::KmsRejected)
    }
}

/// The character of a decimal digit.
pub open spec fn digit_char(d: nat) -> char {
    if d == 0 {
        '0'
    } else if d == 1 {
        '1'
    } else if d == 2 {
        '2'
    } else if d == 3 {
        '3'
    } else if d == 4 {
        '4'
    } else if d == 5 {
        '5'
    } else if d == 6 {
        '6'
    } else if d == 7 {
        '7'
    } else if d == 8 {
        '8'
    } else {
        '9'
    }
}

/// The decimal spelling of a natural number, without leading zeros.
pub open spec fn decimal(n: nat) -> Seq<char>
    decreases n,
{
    if n < 10 {
        seq![digit_char(n)]
    } else {
        decimal(n / 10).push(digit_char(n % 10))
    }
}

/// The decimal spelling of an integer, with a leading minus when negative.
pub open spec fn decimal_int(n: int) -> Seq<char> {
    if n >= 0 {
        decimal(n as nat)
    } else {
        seq!['-'] + decimal((-n) as nat)
    }
}

/// Relies on the `Display` impl of `i32` behind `to_string`: the decimal
/// spelling of the number.
#[verifier::external_body]
fn int_text(n: i32) -> (r: String)
    ensures
        r@ == decimal_int(n as int),
{
    n.to_string()
}

/// The URL of a key request: `kid` as a query parameter, or the bare
/// endpoint (latest key) when `kid` is negative.
pub open spec fn kms_url_spec(kms: Seq<char>, kid: int) -> Seq<char> {
    if kid >= 0 {
        kms + "?kid="@ + decimal(kid as nat)
    } else {
        kms
    }
}

/// Builds the URL of a key request to the KMS at `kms`.
pub fn kms_request_url(kms: &str, kid: i32) -> (r: String)
    ensures
        r@ == kms_url_spec(kms@, kid as int),
{
    let base = String::from_str(kms);
    if kid >= 0 {
        let digits = int_text(kid);
        base.concat("?kid=").concat(digits.as_str())
    } else {
        base
    }
}

/// Builds the `Authorization` value that presents an attestation token.
pub fn bearer(token: &str) -> (r: String)
    ensures
        r@ == "Bearer "@ + token@,
{
    String::from_str("Bearer ").concat(token)
}

/// Where a key import starts.
#[derive(Debug)]
pub enum ImportStart<E> {
    /// The cache already holds the configuration.
    Cached(E),
    /// Attest and ask the KMS.
    Fetch,
}

/// Whether a key import for `kid` may be served from the cache: only a
/// definite key id is looked up there.
pub open spec fn serves_from_cache(kid: int) -> bool {
    kid >= 0
}

/// Starts a key import for `kid`, given what the cache holds under it.
pub fn import_start<E>(kid: i32, cached: Option<E>) -> (r: ImportStart<E>)
    ensures
        serves_from_cache(kid as int) && cached.is_some() ==> r == ImportStart::Cached(
            cached->0,
        ),
        !(serves_from_cache(kid as int) && cached.is_some()) ==> r == ImportStart::<E>::Fetch,
{
    if kid >= 0 {
        match cached {
            Some(e) => ImportStart::Cached(e),
            None => ImportStart::Fetch,
        }
    } else {
        ImportStart::Fetch
    }
}

/// The outcome of the platform attestation call: status code 0 hands back
/// the token that was written, anything else means no token.
pub fn attestation_outcome(code: i32, written: Vec<u8>) -> (r: Result<Vec<u8>, GatewayError>)
    ensures
        code == 0 ==> r == Ok::<Vec<u8>, GatewayError>(written),
        code != 0 ==> r == Err::<Vec<u8>, GatewayError>(GatewayError::AttestationUnavailable),
{
    if code == 0 {
        Ok(written)
    } else {
        Err(GatewayError::AttestationUnavailable)
    }
}

} // verus!
