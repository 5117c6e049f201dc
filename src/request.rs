use vstd::prelude::*;

use crate::error::GatewayError;
use crate::headers::{header_name, header_name_of, headers_view, Header};

verus! {

/// The key id a request asks for: its first byte, or -1 ("latest") when
/// the body is empty.
pub open spec fn requested_kid(body: Seq<u8>) -> int {
    if body.len() == 0 {
        -1
    } else {
        body[0] as int
    }
}

/// Reads the key id from the first byte of an encapsulated request.
pub fn kid_of_body(body: &[u8]) -> (r: i32)
    ensures
        r == requested_kid(body@),
        -1 <= r <= 255,
{
    if body.len() == 0 {
        -1
    } else {
        body[0] as i32
    }
}

/// Whether a configuration may be looked up for `kid`: with a local key
/// only id 0 is known.
pub fn may_resolve(local_key: bool, kid: i32) -> (r: bool)
    ensures
        r == (!local_key || kid == 0),
{
    !local_key || kid == 0
}

/// Framing of the bHTTP messages written back to the client.
#[derive(Debug, Clone, Copy, PartialEq, Eq, Structural)]
pub enum Framing {
    KnownLength,
    IndeterminateLength,
}

/// Picks the response framing from the `--indeterminate` switch.
pub fn framing(indeterminate: bool) -> (r: Framing)
    ensures
        r == (if indeterminate { Framing::IndeterminateLength } else { Framing::KnownLength }),
{
    if indeterminate {
        Framing::IndeterminateLength
    } else {
        Framing::KnownLength
    }
}

/// The text that a byte string spells in UTF-8, if it is valid UTF-8.
pub uninterp spec fn utf8_decoded(b: Seq<u8>) -> Option<Seq<char>>;

/// Relies on std::str::from_utf8: whether bytes are valid UTF-8, and the
/// text they spell, depend on the bytes alone.
#[verifier::external_body]
fn utf8_text(b: &[u8]) -> (r: Option<String>)
    ensures
        r matches Some(t) ==> utf8_decoded(b@) == Some(t@),
        r is None ==> utf8_decoded(b@) is None,
{
    std::str::from_utf8(b).ok().map(|t| t.to_string())
}

/// One field of the inner request, as text: a valid header name (in its
/// normal form) and a UTF-8 value.
pub open spec fn decoded_field(name: Seq<u8>, value: Seq<u8>) -> Option<(Seq<char>, Seq<char>)> {
    match utf8_decoded(name) {
        Some(n) => match header_name_of(n) {
            Some(hn) => match utf8_decoded(value) {
                Some(v) => Some((hn, v)),
                None => None,
            },
            None => None,
        },
        None => None,
    }
}

/// The fields of the inner request as text, or `None` if one is malformed.
pub open spec fn decoded_fields(fields: Seq<(Seq<u8>, Seq<u8>)>) -> Option<
    Seq<(Seq<char>, Seq<char>)>,
>
    decreases fields.len(),
{
    if fields.len() == 0 {
        Some(seq![])
    } else {
        match decoded_fields(fields.drop_last()) {
            Some(acc) => match decoded_field(fields.last().0, fields.last().1) {
                Some(f) => Some(acc.push(f)),
                None => None,
            },
            None => None,
        }
    }
}

/// The abstract value of a list of raw header fields.
pub open spec fn raw_view(fields: Seq<(Vec<u8>, Vec<u8>)>) -> Seq<(Seq<u8>, Seq<u8>)> {
    fields.map_values(|f: (Vec<u8>, Vec<u8>)| (f.0@, f.1@))
}

/// The headers of the backend request: the inner request's own fields, in
/// order, followed by the headers injected from the outer request. A field
/// that is no valid header makes the inner request unusable.
pub fn inner_request_headers(fields: &Vec<(Vec<u8>, Vec<u8>)>, injected: &Vec<Header>) -> (r: Result<
    Vec<Header>,
    GatewayError,
>)
    ensures
        decoded_fields(raw_view(fields@)) is None ==> r == Err::<Vec<Header>, GatewayError>(
            GatewayError::BadInnerRequest,
        ),
        decoded_fields(raw_view(fields@)) matches Some(d) ==> r is Ok && headers_view(r->Ok_0@)
            == d + headers_view(injected@),
{
    let ghost fv = raw_view(fields@);
    let mut out: Vec<Header> = Vec::new();
    let mut i: usize = 0;
    while i < fields.len()
        invariant
            0 <= i <= fields@.len(),
            fv == raw_view(fields@),
            decoded_fields(fv.take(i as int)) == Some(headers_view(out@)),
        decreases fields.len() - i,
    {
        proof {
            assert(fv.take(i as int + 1).drop_last() == fv.take(i as int));
        }
        let (name, value) = &fields[i];
        let field = match utf8_text(name.as_slice()) {
            Some(n) => match header_name(&n) {
                Some(hn) => match utf8_text(value.as_slice()) {
                    Some(v) => Some((hn, v)),
                    None => None,
                },
                None => None,
            },
            None => None,
        };
        match field {
            Some(f) => {
                let ghost before = out@;
                out.push(f);
                assert(headers_view(out@) == headers_view(before).push((f.0@, f.1@)));
            },
            None => {
                proof {
                    lemma_malformed_persists(fv, i as int + 1);
                }
                return Err(GatewayError::BadInnerRequest);
            },
        }
        i = i + 1;
    }
    proof {
        assert(fv.take(fields@.len() as int) == fv);
    }
    let ghost own = headers_view(out@);
    let ghost iv = headers_view(injected@);
    let mut j: usize = 0;
    while j < injected.len()
        invariant
            0 <= j <= injected@.len(),
            iv == headers_view(injected@),
            headers_view(out@) == own + iv.take(j as int),
        decreases injected.len() - j,
    {
        let ghost before = out@;
        out.push((injected[j].0.clone(), injected[j].1.clone()));
        assert(headers_view(out@) == headers_view(before).push(iv[j as int]));
        assert(iv.take(j as int + 1) == iv.take(j as int).push(iv[j as int]));
        j = j + 1;
    }
    assert(iv.take(injected@.len() as int) == iv);
    Ok(out)
}

/// Once a field of the first `j` is malformed, the whole list is.
proof fn lemma_malformed_persists(fields: Seq<(Seq<u8>, Seq<u8>)>, j: int)
    requires
        0 <= j <= fields.len(),
        decoded_fields(fields.take(j)) is None,
    ensures
        decoded_fields(fields) is None,
    decreases fields.len(),
{
    if j < fields.len() {
        assert(fields.drop_last().take(j) == fields.take(j));
        lemma_malformed_persists(fields.drop_last(), j);
    } else {
        assert(fields.take(j) == fields);
    }
}

/// The path of the backend request: the inner request's path, which must be
/// valid UTF-8; `None` when the inner request has no path, so that the
/// target's own path is kept.
pub fn inner_path(path: Option<&[u8]>) -> (r: Result<Option<String>, GatewayError>)
    ensures
        path is None ==> r == Ok::<Option<String>, GatewayError>(None),
        path matches Some(p) ==> (utf8_decoded(p@) is None ==> r == Err::<
            Option<String>,
            GatewayError,
        >(GatewayError::BadInnerRequest)),
        path matches Some(p) ==> (utf8_decoded(p@) matches Some(t) ==> (r matches Ok(Some(x))
            && x@ == t)),
{
    match path {
        Some(p) => match utf8_text(p) {
            Some(t) => Ok(Some(t)),
            None => Err(GatewayError::BadInnerRequest),
        },
        None => Ok(None),
    }
}

/// The method of the backend request: the inner request's, or `GET` when
/// it has none.
pub fn inner_method(method: Option<&[u8]>) -> (r: Vec<u8>)
    ensures
        method matches Some(m) ==> r@ == m@,
        method is None ==> r@ == seq![71u8, 69u8, 84u8],
{
    match method {
        Some(m) => vstd::slice::slice_to_vec(m),
        None => vec![71u8, 69u8, 84u8],
    }
}

/// A decoded inner request, as plain values.
#[derive(Debug)]
pub struct InnerRequest {
    pub method: Option<Vec<u8>>,
    pub path: Option<Vec<u8>>,
    pub fields: Vec<(Vec<u8>, Vec<u8>)>,
    pub content: Vec<u8>,
}

/// What bhttp reads a byte string as, if it is a binary HTTP message.
pub uninterp spec fn bhttp_decoded(b: Seq<u8>) -> Option<InnerRequest>;

/// Relies on bhttp's `Message::read_bhttp`: whether bytes form a message,
/// and the message read, depend on the bytes alone.
#[verifier::external_body]
fn read_bhttp(b: &[u8]) -> (r: Option<InnerRequest>)
    ensures
        r is Some <==> bhttp_decoded(b@) is Some,
        r matches Some(m) ==> bhttp_decoded(b@) == Some(m),
{
    let m = bhttp::Message::read_bhttp::<_, std::io::Cursor<&[u8]>>(&mut std::io::Cursor::new(b)).ok()?;
    Some(InnerRequest {
        method: m.control().method().map(|x| x.to_vec()),
        path: m.control().path().map(|x| x.to_vec()),
        fields: m.header().fields().iter().map(|f| (f.name().to_vec(), f.value().to_vec())).collect(),
        content: m.content().to_vec(),
    })
}

/// Reads the decapsulated bytes as a binary HTTP request; bytes that are
/// no binary HTTP message make the inner request unusable.
pub fn decode_inner_request(b: &[u8]) -> (r: Result<InnerRequest, GatewayError>)
    ensures
        bhttp_decoded(b@) is None ==> r == Err::<InnerRequest, GatewayError>(
            GatewayError::BadInnerRequest,
        ),
        bhttp_decoded(b@) matches Some(m) ==> r == Ok::<InnerRequest, GatewayError>(m),
{
    match read_bhttp(b) {
        Some(m) => Ok(m),
        None => Err(GatewayError::BadInnerRequest),
    }
}

} // verus!
