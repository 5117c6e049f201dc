use vstd::prelude::*;

use crate::error::GatewayError;
use serde_cbor::Value as CborValue;

verus! {

/// The value of a hexadecimal digit (either case), or -1 for any other char.
pub open spec fn hex_value(c: char) -> int {
    let u = c as u32;
    if 0x30 <= u <= 0x39 {
        u - 0x30
    } else if 0x61 <= u <= 0x66 {
        u - 0x61 + 10
    } else if 0x41 <= u <= 0x46 {
        u - 0x41 + 10
    } else {
        -1
    }
}

/// A text made of pairs of hexadecimal digits.
pub open spec fn is_hex_text(s: Seq<char>) -> bool {
    &&& s.len() % 2 == 0
    &&& forall|i: int| 0 <= i < s.len() ==> hex_value(#[trigger] s[i]) >= 0
}

/// The bytes spelled by a hex text, two digits per byte, high nibble first.
pub open spec fn hex_bytes(s: Seq<char>) -> Seq<u8> {
    Seq::new(s.len() / 2, |i: int| (hex_value(s[2 * i]) * 16 + hex_value(s[2 * i + 1])) as u8)
}

#[verifier::external_type_specification]
#[verifier::external_body]
pub struct ExFromHexError(hex::FromHexError);

/// Relies on hex::decode: it accepts exactly the texts of an even number of
/// hex digits (either case) and returns one byte per pair.
#[verifier::external_body]
fn decode_hex(s: &str) -> (r: Result<Vec<u8>, hex::FromHexError>)
    ensures
        r is Ok <==> is_hex_text(s@),
        r matches Ok(b) ==> b@ == hex_bytes(s@),
{
    hex::decode(s)
}

/// A CBOR data item, as far as an exported key is read: integers and byte
/// strings are kept, every other item is `Other`.
#[derive(Debug)]
pub enum CborItem {
    Integer(i128),
    Bytes(Vec<u8>),
    Other,
}

/// A decoded CBOR document: a map with its entries in the decoder's order,
/// or anything else.
#[derive(Debug)]
pub enum CborDoc {
    Entries(Vec<(CborItem, CborItem)>),
    Other,
}

/// What serde_cbor decodes a byte string to.
pub uninterp spec fn cbor_decoded(b: Seq<u8>) -> Option<CborDoc>;

#[verifier::external_type_specification]
#[verifier::external_body]
pub struct ExCborError(serde_cbor::Error);

/// Relies on serde_cbor::from_slice into serde_cbor::Value: decoding depends
/// on the bytes alone. A map's entries are handed on in the order that the
/// decoded map yields them; integers and byte strings are kept as they are,
/// any other item becomes `Other`.
#[verifier::external_body]
fn decode_cbor(b: &[u8]) -> (r: Result<CborDoc, serde_cbor::Error>)
    ensures
        r is Ok <==> cbor_decoded(b@) is Some,
        r matches Ok(d) ==> cbor_decoded(b@) == Some(d),
{
    let item = |v: CborValue| match v {
        CborValue::Integer(i) => CborItem::Integer(i),
        CborValue::Bytes(b) => CborItem::Bytes(b),
        _ => CborItem::Other,
    };
    match serde_cbor::from_slice::<CborValue>(b)? {
        CborValue::Map(m) => Ok(CborDoc::Entries(m.into_iter().map(|(k, v)| (item(k), item(v))).collect())),
        _ => Ok(CborDoc::Other),
    }
}

/// Fields read so far from an exported key: the private scalar, if seen,
/// and the key id (0 until seen).
pub type Fields = (Option<Seq<u8>>, u8);

/// Reads one map entry of an exported key, `kid` being the requested id.
pub open spec fn field_step(acc: Fields, key: CborItem, value: CborItem, kid: int) -> Result<
    Fields,
    GatewayError,
> {
    match key {
        CborItem::Integer(n) => if n == 4 {
            match value {
                CborItem::Integer(k) => if !(0 <= k <= 255) {
                    Err(GatewayError::MalformedKey)
                } else if kid >= 0 && k != kid {
                    Err(GatewayError::KeyIdMismatch)
                } else {
                    Ok((acc.0, k as u8))
                },
                _ => Err(GatewayError::MalformedKey),
            }
        } else if n == -4 {
            match value {
                CborItem::Bytes(d) => Ok((Some(d@), acc.1)),
                _ => Err(GatewayError::MalformedKey),
            }
        } else if n == -1 {
            match value {
                CborItem::Integer(t) => if t == 2 {
                    Ok(acc)
                } else {
                    Err(GatewayError::MalformedKey)
                },
                _ => Err(GatewayError::MalformedKey),
            }
        } else if n == -2 || n == -3 {
            Ok(acc)
        } else {
            Err(GatewayError::MalformedKey)
        },
        _ => Err(GatewayError::MalformedKey),
    }
}

/// Reads the entries of an exported key in order; the first bad entry decides
/// the error.
pub open spec fn entries_fields(es: Seq<(CborItem, CborItem)>, kid: int) -> Result<
    Fields,
    GatewayError,
>
    decreases es.len(),
{
    if es.len() == 0 {
        Ok((None, 0))
    } else {
        match entries_fields(es.drop_last(), kid) {
            Ok(acc) => field_step(acc, es.last().0, es.last().1, kid),
            Err(e) => Err(e),
        }
    }
}

/// The fields of a decoded key document; a document that is not a map is
/// malformed.
pub open spec fn doc_fields(doc: CborDoc, kid: int) -> Result<Fields, GatewayError> {
    match doc {
        CborDoc::Entries(es) => entries_fields(es@, kid),
        CborDoc::Other => Err(GatewayError::MalformedKey),
    }
}

/// Once reading the first `j` entries fails, reading all of them fails alike.
proof fn lemma_error_persists(es: Seq<(CborItem, CborItem)>, kid: int, j: int)
    requires
        0 <= j <= es.len(),
        entries_fields(es.take(j), kid) is Err,
    ensures
        entries_fields(es, kid) == entries_fields(es.take(j), kid),
    decreases es.len(),
{
    if j < es.len() {
        assert(es.drop_last().take(j) == es.take(j));
        lemma_error_persists(es.drop_last(), kid, j);
    } else {
        assert(es.take(j) == es);
    }
}

/// The abstract value of a field result.
pub open spec fn fields_view(r: Result<(Option<Vec<u8>>, u8), GatewayError>) -> Result<
    Fields,
    GatewayError,
> {
    match r {
        Ok((d, k)) => Ok(
            (
                match d {
                    Some(v) => Some(v@),
                    None => None,
                },
                k,
            ),
        ),
        Err(e) => Err(e),
    }
}

/// Reads the key id and private scalar out of a decoded key document.
pub fn key_fields(doc: &CborDoc, kid: i32) -> (r: Result<(Option<Vec<u8>>, u8), GatewayError>)
    ensures
        fields_view(r) == doc_fields(*doc, kid as int),
{
    match doc {
        CborDoc::Other => Err(GatewayError::MalformedKey),
        CborDoc::Entries(es) => {
            let mut d: Option<Vec<u8>> = None;
            let mut returned_kid: u8 = 0;
            let mut i: usize = 0;
            while i < es.len()
                invariant
                    0 <= i <= es@.len(),
                    doc_fields(*doc, kid as int) == entries_fields(es@, kid as int),
                    entries_fields(es@.take(i as int), kid as int) == fields_view(
                        Ok((d, returned_kid)),
                    ),
                decreases es.len() - i,
            {
                proof {
                    assert(es@.take(i as int + 1).drop_last() == es@.take(i as int));
                }
                let (key, value) = &es[i];
                let outcome: Result<(), GatewayError> = match key {
                    CborItem::Integer(n) => {
                        if *n == 4 {
                            match value {
                                CborItem::Integer(k) => {
                                    if *k < 0 || *k > 255 {
                                        Err(GatewayError::MalformedKey)
                                    } else if kid >= 0 && *k != kid as i128 {
                                        Err(GatewayError::KeyIdMismatch)
                                    } else {
                                        returned_kid = *k as u8;
                                        Ok(())
                                    }
                                },
                                _ => Err(GatewayError::MalformedKey),
                            }
                        } else if *n == -4 {
                            match value {
                                CborItem::Bytes(b) => {
                                    d = Some(b.clone());
                                    Ok(())
                                },
                                _ => Err(GatewayError::MalformedKey),
                            }
                        } else if *n == -1 {
                            match value {
                                CborItem::Integer(t) => if *t == 2 {
                                    Ok(())
                                } else {
                                    Err(GatewayError::MalformedKey)
                                },
                                _ => Err(GatewayError::MalformedKey),
                            }
                        } else if *n == -2 || *n == -3 {
                            Ok(())
                        } else {
                            Err(GatewayError::MalformedKey)
                        }
                    },
                    _ => Err(GatewayError::MalformedKey),
                };
                if let Err(e) = outcome {
                    proof {
                        assert(es@.take(i as int + 1).last() == es@[i as int]);
                        assert(entries_fields(es@.take(i as int + 1), kid as int) == Err::<
                            Fields,
                            GatewayError,
                        >(e));
                        lemma_error_persists(es@, kid as int, i as int + 1);
                    }
                    return Err(e);
                }
                i = i + 1;
            }
            proof {
                assert(es@.take(es@.len() as int) == es@);
            }
            Ok((d, returned_kid))
        },
    }
}

} // verus!

verus! {

/// Reads an exported key: `key` is the hex text of a CBOR map, `kid` the
/// id that was requested (-1 for the latest). Yields the private scalar, if
/// present, and the key id found in the map.
pub fn parse_cbor_key(key: &str, kid: i32) -> (r: Result<(Option<Vec<u8>>, u8), GatewayError>)
    ensures
        !is_hex_text(key@) ==> r == Err::<(Option<Vec<u8>>, u8), GatewayError>(
            GatewayError::MalformedKey,
        ),
        is_hex_text(key@) && cbor_decoded(hex_bytes(key@)) is None ==> r == Err::<
            (Option<Vec<u8>>, u8),
            GatewayError,
        >(GatewayError::MalformedKey),
        is_hex_text(key@) ==> (cbor_decoded(hex_bytes(key@)) matches Some(doc) ==> fields_view(r)
            == doc_fields(doc, kid as int)),
{
    let cwk = match decode_hex(key) {
        Ok(b) => b,
        Err(_) => {
            return Err(GatewayError::MalformedKey);
        },
    };
    let doc = match decode_cbor(cwk.as_slice()) {
        Ok(d) => d,
        Err(_) => {
            return Err(GatewayError::MalformedKey);
        },
    };
    key_fields(&doc, kid)
}

/// What the KMS returns for a key release.
pub struct ExportedKey {
    pub kid: u8,
    pub key: String,
    pub receipt: String,
}

/// A private key taken out of a KMS answer, with its key id.
pub struct KeyMaterial {
    pub kid: u8,
    pub scalar: Vec<u8>,
}

/// The key id and scalar that a decoded key document yields for request
/// `kid`; a document without a scalar is malformed.
pub open spec fn doc_material(doc: CborDoc, kid: int) -> Result<(u8, Seq<u8>), GatewayError> {
    match doc_fields(doc, kid) {
        Ok((Some(d), k)) => Ok((k, d)),
        Ok((None, _)) => Err(GatewayError::MalformedKey),
        Err(e) => Err(e),
    }
}

/// The abstract value of a key import result.
pub open spec fn material_view(r: Result<KeyMaterial, GatewayError>) -> Result<
    (u8, Seq<u8>),
    GatewayError,
> {
    match r {
        Ok(m) => Ok((m.kid, m.scalar@)),
        Err(e) => Err(e),
    }
}

/// Whether the KMS answered for another key than the requested one.
pub open spec fn kid_mismatch(kid: int, returned: u8) -> bool {
    kid >= 0 && returned as int != kid
}

/// Takes the private key out of a KMS answer to a request for `kid`.
pub fn import_exported(kid: i32, exported: &ExportedKey) -> (r: Result<KeyMaterial, GatewayError>)
    ensures
        kid_mismatch(kid as int, exported.kid) ==> r == Err::<KeyMaterial, GatewayError>(
            GatewayError::KeyIdMismatch,
        ),
        !kid_mismatch(kid as int, exported.kid) && !is_hex_text(exported.key@) ==> r == Err::<
            KeyMaterial,
            GatewayError,
        >(GatewayError::MalformedKey),
        !kid_mismatch(kid as int, exported.kid) && is_hex_text(exported.key@) && cbor_decoded(
            hex_bytes(exported.key@),
        ) is None ==> r == Err::<KeyMaterial, GatewayError>(GatewayError::MalformedKey),
        !kid_mismatch(kid as int, exported.kid) && is_hex_text(exported.key@) ==> (cbor_decoded(
            hex_bytes(exported.key@),
        ) matches Some(doc) ==> material_view(r) == doc_material(doc, kid as int)),
{
    if kid >= 0 && exported.kid as i32 != kid {
        return Err(GatewayError::KeyIdMismatch);
    }
    let (d, returned_kid) = parse_cbor_key(exported.key.as_str(), kid)?;
    match d {
        Some(scalar) => Ok(KeyMaterial { kid: returned_kid, scalar }),
        None => Err(GatewayError::MalformedKey),
    }
}

} // verus!
