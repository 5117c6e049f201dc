use vstd::prelude::*;

verus! {

/// The error kinds that the gateway core distinguishes.
#[derive(Debug, Clone, Copy, PartialEq, Eq, Structural)]
pub enum GatewayError {
    /// No attestation token could be minted.
    AttestationUnavailable,
    /// The KMS kept answering "not ready" until the retry budget ran out.
    KmsUnavailable,
    /// The KMS answered with a status other than ready or not-ready.
    KmsRejected,
    /// The exported key is not well-formed.
    MalformedKey,
    /// The KMS returned a key under another id than the one requested.
    KeyIdMismatch,
    /// The encapsulated request could not be opened.
    BadOuterRequest,
    /// The decapsulated request is not a usable HTTP request.
    BadInnerRequest,
    /// The backend answered with an error or broke off.
    BackendFailure,
}

/// The HTTP status that a request failing with `e` is answered with.
pub open spec fn status_of(e: GatewayError) -> u16 {
    match e {
        GatewayError::BadOuterRequest => 422,
        GatewayError::BadInnerRequest => 400,
        GatewayError::BackendFailure => 400,
        _ => 500,
    }
}

/// Maps an error to the HTTP status of the outer response.
pub fn error_status(e: GatewayError) -> (r: u16)
    ensures
        r == status_of(e),
{
    match e {
        GatewayError::BadOuterRequest => 422,
        GatewayError::BadInnerRequest => 400,
        GatewayError::BackendFailure => 400,
        _ => 500,
    }
}

/// An HTTP status with its body.
#[derive(Debug)]
pub struct Reply {
    pub status: u16,
    pub body: String,
}

/// The body of the reply when no key configuration could be had.
pub open spec fn missing_config_text() -> Seq<char> {
    "Failed to get or load the OHTTP coniguration from local cache or key management service."@
}

/// The reply to a request for which no key configuration could be had.
pub fn missing_config_reply() -> (r: Reply)
    ensures
        r.status == 500,
        r.body@ == missing_config_text(),
{
    Reply {
        status: 500,
        body: String::from_str(
            "Failed to get or load the OHTTP coniguration from local cache or key management service.",
        ),
    }
}

/// The reply to a request that failed before its response was streamed:
/// `detail` names a decapsulation failure, which is reported as such;
/// every other failure gets a generic body.
pub fn request_error_reply(e: GatewayError, detail: &str) -> (r: Reply)
    ensures
        r.status == status_of(e),
        e == GatewayError::BadOuterRequest ==> r.body@ == "Error: "@ + detail@,
        e == GatewayError::BadInnerRequest || e == GatewayError::BackendFailure ==> r.body@
            == "Request error"@,
        status_of(e) == 500 ==> r.body@ == missing_config_text(),
{
    let status = error_status(e);
    match e {
        GatewayError::BadOuterRequest => Reply {
            status,
            body: String::from_str("Error: ").concat(detail),
        },
        GatewayError::BadInnerRequest | GatewayError::BackendFailure => Reply {
            status,
            body: String::from_str("Request error"),
        },
        _ => missing_config_reply(),
    }
}

} // verus!
