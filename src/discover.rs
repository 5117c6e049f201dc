use vstd::prelude::*;

use crate::error::Reply;

verus! {

/// The lower-case hexadecimal digit of `d` (0 to 15).
pub open spec fn hex_digit(d: int) -> char {
    "0123456789abcdef"@[d]
}

/// The lower-case hex spelling of a byte string, high nibble first.
pub open spec fn hex_text(b: Seq<u8>) -> Seq<char> {
    Seq::new(
        2 * b.len(),
        |i: int|
            if i % 2 == 0 {
                hex_digit(b[i / 2] as int / 16)
            } else {
                hex_digit(b[i / 2] as int % 16)
            },
    )
}

/// Relies on hex::encode: two lower-case digits per byte, high nibble first.
#[verifier::external_body]
fn to_hex(b: &[u8]) -> (r: String)
    ensures
        r@ == hex_text(b@),
{
    hex::encode(b)
}

/// What the gateway could produce for the key configuration list of id 0.
#[derive(Debug)]
pub enum ConfigListing {
    /// No configuration is held under id 0.
    Missing,
    /// The configuration could not be encoded.
    Unencodable,
    /// The encoded configuration list.
    Encoded(Vec<u8>),
}

/// Answers the discovery route: only with a local key is the configuration
/// published, as hex of its encoded list.
pub fn discover_reply(local_key: bool, listing: &ConfigListing) -> (r: Reply)
    ensures
        !local_key ==> r.status == 404 && r.body@ == "Not found"@,
        local_key && listing is Encoded ==> r.status == 200 && r.body@ == hex_text(
            listing->Encoded_0@,
        ),
        local_key && listing is Missing ==> r.status == 500 && r.body@
            == "KID 0 missing from cache (should be impossible with local keying)"@,
        local_key && listing is Unencodable ==> r.status == 500 && r.body@
            == "Invalid key configuration (check KeyConfig written to initial cache)"@,
{
    if !local_key {
        return Reply { status: 404, body: String::from_str("Not found") };
    }
    match listing {
        ConfigListing::Missing => Reply {
            status: 500,
            body: String::from_str("KID 0 missing from cache (should be impossible with local keying)"),
        },
        ConfigListing::Unencodable => Reply {
            status: 500,
            body: String::from_str("Invalid key configuration (check KeyConfig written to initial cache)"),
        },
        ConfigListing::Encoded(list) => Reply { status: 200, body: to_hex(list.as_slice()) },
    }
}

} // verus!
