use vstd::prelude::*;

verus! {

/// A header field: a lower-case name and a value.
pub type Header = (String, String);

/// The abstract value of a header list.
pub open spec fn headers_view(hs: Seq<Header>) -> Seq<(Seq<char>, Seq<char>)> {
    hs.map_values(|h: Header| (h.0@, h.1@))
}

/// The first value of header `name` in `hs`, if any.
pub open spec fn lookup(hs: Seq<(Seq<char>, Seq<char>)>, name: Seq<char>) -> Option<Seq<char>>
    decreases hs.len(),
{
    if hs.len() == 0 {
        None
    } else if hs[0].0 == name {
        Some(hs[0].1)
    } else {
        lookup(hs.drop_first(), name)
    }
}

/// Whether header `name` occurs in `hs`.
pub open spec fn has_name(hs: Seq<(Seq<char>, Seq<char>)>, name: Seq<char>) -> bool {
    exists|i: int| 0 <= i < hs.len() && #[trigger] hs[i].0 == name
}

/// The first value of header `name`.
pub fn first_value(hs: &Vec<Header>, name: &String) -> (r: Option<String>)
    ensures
        r matches Some(v) ==> lookup(headers_view(hs@), name@) == Some(v@),
        r is None ==> lookup(headers_view(hs@), name@) is None,
{
    let ghost hv = headers_view(hs@);
    proof {
        assert(hv.subrange(0, hv.len() as int) == hv);
    }
    let mut i: usize = 0;
    while i < hs.len()
        invariant
            0 <= i <= hs@.len(),
            hv == headers_view(hs@),
            lookup(hv, name@) == lookup(hv.subrange(i as int, hv.len() as int), name@),
        decreases hs.len() - i,
    {
        assert(hv.subrange(i as int, hv.len() as int).drop_first() == hv.subrange(
            i as int + 1,
            hv.len() as int,
        ));
        if hs[i].0 == *name {
            return Some(hs[i].1.clone());
        }
        i = i + 1;
    }
    None
}

/// Whether header `name` occurs in `hs`.
pub fn contains_name(hs: &Vec<Header>, name: &String) -> (r: bool)
    ensures
        r == has_name(headers_view(hs@), name@),
{
    let ghost hv = headers_view(hs@);
    let mut i: usize = 0;
    while i < hs.len()
        invariant
            0 <= i <= hs@.len(),
            hv == headers_view(hs@),
            forall|k: int| 0 <= k < i ==> hv[k].0 != name@,
        decreases hs.len() - i,
    {
        if hs[i].0 == *name {
            assert(hv[i as int].0 == name@);
            return true;
        }
        i = i + 1;
    }
    false
}

/// The headers forwarded from the outer request into the inner one, for an
/// allowlist whose entries were normalised to header names (`None` where an
/// entry is no valid name): each allowlisted header that the outer request
/// carries, once, with its first value, in allowlist order.
pub open spec fn injected(hs: Seq<(Seq<char>, Seq<char>)>, names: Seq<Option<Seq<char>>>) -> Seq<
    (Seq<char>, Seq<char>),
>
    decreases names.len(),
{
    if names.len() == 0 {
        seq![]
    } else {
        let acc = injected(hs, names.drop_last());
        match names.last() {
            Some(n) => match lookup(hs, n) {
                Some(v) => if has_name(acc, n) {
                    acc
                } else {
                    acc.push((n, v))
                },
                None => acc,
            },
            None => acc,
        }
    }
}

/// The abstract value of a normalised allowlist.
pub open spec fn names_view(names: Seq<Option<String>>) -> Seq<Option<Seq<char>>> {
    names.map_values(
        |o: Option<String>|
            match o {
                Some(s) => Some(s@),
                None => None,
            },
    )
}

/// Selects the outer headers to forward, given the normalised allowlist.
pub fn inject_normalized(headers: &Vec<Header>, names: &Vec<Option<String>>) -> (r: Vec<Header>)
    ensures
        headers_view(r@) == injected(headers_view(headers@), names_view(names@)),
{
    let ghost hv = headers_view(headers@);
    let ghost nv = names_view(names@);
    let mut out: Vec<Header> = Vec::new();
    let mut i: usize = 0;
    while i < names.len()
        invariant
            0 <= i <= names@.len(),
            hv == headers_view(headers@),
            nv == names_view(names@),
            headers_view(out@) == injected(hv, nv.take(i as int)),
        decreases names.len() - i,
    {
        proof {
            assert(nv.take(i as int + 1).drop_last() == nv.take(i as int));
        }
        if let Some(n) = &names[i] {
            if let Some(v) = first_value(headers, n) {
                if !contains_name(&out, n) {
                    let ghost before = out@;
                    out.push((n.clone(), v));
                    assert(headers_view(out@) == headers_view(before).push((n@, v@)));
                }
            }
        }
        i = i + 1;
    }
    proof {
        assert(nv.take(names@.len() as int) == nv);
    }
    out
}

/// The header name that an allowlist entry stands for, if it is a valid one.
pub uninterp spec fn header_name_of(key: Seq<char>) -> Option<Seq<char>>;

/// Relies on reqwest's `HeaderName::try_from(String)`: whether a text is a
/// valid header name, and its normalised form, depend on the text alone.
#[verifier::external_body]
pub(crate) fn header_name(key: &String) -> (r: Option<String>)
    ensures
        r matches Some(n) ==> header_name_of(key@) == Some(n@),
        r is None ==> header_name_of(key@) is None,
{
    reqwest::header::HeaderName::try_from(key.clone()).ok().map(|n| n.as_str().to_string())
}

/// The allowlist normalised to header names.
pub open spec fn normalized(keys: Seq<String>) -> Seq<Option<Seq<char>>> {
    keys.map_values(|k: String| header_name_of(k@))
}

/// Computes the headers of the outer request that are forwarded into the
/// inner request: those named in the allowlist `keys`.
pub fn compute_injected_headers(headers: &Vec<Header>, keys: &Vec<String>) -> (r: Vec<Header>)
    ensures
        headers_view(r@) == injected(headers_view(headers@), normalized(keys@)),
{
    let mut names: Vec<Option<String>> = Vec::new();
    let mut i: usize = 0;
    while i < keys.len()
        invariant
            0 <= i <= keys@.len(),
            names@.len() == i,
            names_view(names@) == normalized(keys@).take(i as int),
        decreases keys.len() - i,
    {
        let n = header_name(&keys[i]);
        let ghost before = names@;
        names.push(n);
        proof {
            assert(names_view(names@) == names_view(before).push(header_name_of(keys@[i as int]@)));
            assert(normalized(keys@).take(i as int + 1) == normalized(keys@).take(i as int).push(
                header_name_of(keys@[i as int]@),
            ));
        }
        i = i + 1;
    }
    proof {
        assert(normalized(keys@).take(keys@.len() as int) == normalized(keys@));
    }
    inject_normalized(headers, &names)
}

/// Header injection keeps to the allowlist: every forwarded header is named
/// in the allowlist and carries the outer request's first value for it;
/// every allowlisted header that the outer request carries is forwarded;
/// and no header is forwarded twice.
pub proof fn lemma_injection_allowlist(
    hs: Seq<(Seq<char>, Seq<char>)>,
    names: Seq<Option<Seq<char>>>,
)
    ensures
        forall|i: int|
            0 <= i < injected(hs, names).len() ==> {
                &&& exists|j: int|
                    0 <= j < names.len() && #[trigger] names[j] == Some(
                        injected(hs, names)[i].0,
                    )
                &&& lookup(hs, #[trigger] injected(hs, names)[i].0) == Some(
                    injected(hs, names)[i].1,
                )
            },
        forall|j: int|
            0 <= j < names.len() && (#[trigger] names[j] matches Some(n) && lookup(hs, n) is Some)
                ==> has_name(injected(hs, names), names[j]->0),
        forall|i: int, k: int|
            0 <= i < k < injected(hs, names).len() ==> #[trigger] injected(hs, names)[i].0
                != #[trigger] injected(hs, names)[k].0,
    decreases names.len(),
{
    if names.len() > 0 {
        let prev = names.drop_last();
        lemma_injection_allowlist(hs, prev);
        let acc = injected(hs, prev);
        let r = injected(hs, names);
        assert forall|i: int| 0 <= i < r.len() implies exists|j: int|
            0 <= j < names.len() && #[trigger] names[j] == Some(#[trigger] r[i].0) by {
            if i < acc.len() {
                assert(r[i] == acc[i]);
                let j = choose|j: int| 0 <= j < prev.len() && #[trigger] prev[j] == Some(acc[i].0);
                assert(names[j] == prev[j]);
            } else {
                assert(names[names.len() - 1] == Some(r[i].0));
            }
        }
        assert forall|j: int|
            0 <= j < names.len() && (#[trigger] names[j] matches Some(n) && lookup(hs, n) is Some)
                implies has_name(r, names[j]->0) by {
            if j < prev.len() {
                assert(names[j] == prev[j]);
                let i = choose|i: int| 0 <= i < acc.len() && #[trigger] acc[i].0 == names[j]->0;
                assert(r[i] == acc[i]);
            } else {
                if !has_name(acc, names[j]->0) {
                    assert(r[acc.len() as int].0 == names[j]->0);
                } else {
                    let i = choose|i: int| 0 <= i < acc.len() && #[trigger] acc[i].0 == names[j]->0;
                    assert(r[i] == acc[i]);
                }
            }
        }
    }
}

/// Whether `a` is an upper-case ASCII letter.
pub open spec fn is_ascii_upper(a: char) -> bool {
    0x41 <= a as u32 <= 0x5a
}

/// Whether two chars are equal up to ASCII case.
pub open spec fn same_ignoring_case(a: char, b: char) -> bool {
    ||| a == b
    ||| is_ascii_upper(a) && a as u32 + 32 == b as u32
    ||| is_ascii_upper(b) && b as u32 + 32 == a as u32
}

/// Whether two texts are equal up to ASCII case.
pub open spec fn eq_ignoring_case(a: Seq<char>, b: Seq<char>) -> bool {
    &&& a.len() == b.len()
    &&& forall|i: int| 0 <= i < a.len() ==> same_ignoring_case(#[trigger] a[i], b[i])
}

/// Compares two texts up to ASCII case.
pub fn eq_ignore_case(a: &str, b: &str) -> (r: bool)
    ensures
        r == eq_ignoring_case(a@, b@),
{
    let n = a.unicode_len();
    if n != b.unicode_len() {
        return false;
    }
    let mut i: usize = 0;
    while i < n
        invariant
            0 <= i <= n,
            n == a@.len(),
            n == b@.len(),
            forall|k: int| 0 <= k < i ==> same_ignoring_case(#[trigger] a@[k], b@[k]),
        decreases n - i,
    {
        let x = a.get_char(i);
        let y = b.get_char(i);
        let ux = x as u32;
        let uy = y as u32;
        let same = x == y || (0x41 <= ux && ux <= 0x5a && ux + 32 == uy) || (0x41 <= uy && uy
            <= 0x5a && uy + 32 == ux);
        if !same {
            assert(!same_ignoring_case(a@[i as int], b@[i as int]));
            return false;
        }
        i = i + 1;
    }
    true
}

/// Whether a backend response header is withheld from the outer response:
/// its own framing headers describe the inner message, not the outer one.
pub open spec fn is_framing_header(name: Seq<char>) -> bool {
    eq_ignoring_case(name, "content-type"@) || eq_ignoring_case(name, "content-length"@)
}

/// The backend response headers that pass to the outer response, in order.
pub open spec fn passed_headers(hs: Seq<(Seq<char>, Seq<char>)>) -> Seq<(Seq<char>, Seq<char>)>
    decreases hs.len(),
{
    if hs.len() == 0 {
        seq![]
    } else if is_framing_header(hs.last().0) {
        passed_headers(hs.drop_last())
    } else {
        passed_headers(hs.drop_last()).push(hs.last())
    }
}

/// Drops `content-type` and `content-length` (in any case) from the
/// backend's response headers.
pub fn filter_response_headers(hs: &Vec<Header>) -> (r: Vec<Header>)
    ensures
        headers_view(r@) == passed_headers(headers_view(hs@)),
{
    let ghost hv = headers_view(hs@);
    let content_type = String::from_str("content-type");
    let content_length = String::from_str("content-length");
    let mut out: Vec<Header> = Vec::new();
    let mut i: usize = 0;
    while i < hs.len()
        invariant
            0 <= i <= hs@.len(),
            hv == headers_view(hs@),
            content_type@ == "content-type"@,
            content_length@ == "content-length"@,
            headers_view(out@) == passed_headers(hv.take(i as int)),
        decreases hs.len() - i,
    {
        proof {
            assert(hv.take(i as int + 1).drop_last() == hv.take(i as int));
        }
        let name = hs[i].0.as_str();
        if !eq_ignore_case(name, content_type.as_str()) && !eq_ignore_case(
            name,
            content_length.as_str(),
        ) {
            let ghost before = out@;
            out.push((hs[i].0.clone(), hs[i].1.clone()));
            assert(headers_view(out@) == headers_view(before).push(hv[i as int]));
        }
        i = i + 1;
    }
    proof {
        assert(hv.take(hs@.len() as int) == hv);
    }
    out
}

/// The response filter never lets a framing header through, and lets
/// through only headers of the backend's response.
pub proof fn lemma_filter_drops_framing(hs: Seq<(Seq<char>, Seq<char>)>)
    ensures
        forall|i: int|
            0 <= i < passed_headers(hs).len() ==> !is_framing_header(
                #[trigger] passed_headers(hs)[i].0,
            ) && hs.contains(passed_headers(hs)[i]),
    decreases hs.len(),
{
    if hs.len() > 0 {
        lemma_filter_drops_framing(hs.drop_last());
        let prev = passed_headers(hs.drop_last());
        let r = passed_headers(hs);
        assert forall|i: int| 0 <= i < r.len() implies !is_framing_header(#[trigger] r[i].0)
            && hs.contains(r[i]) by {
            if i < prev.len() {
                assert(r[i] == prev[i]);
                let k = choose|k: int| 0 <= k < hs.len() - 1 && hs.drop_last()[k] == prev[i];
                assert(hs[k] == prev[i]);
            } else {
                assert(r[i] == hs[hs.len() - 1]);
            }
        }
    }
}

/// The name of the header that asks for, and carries, the attestation token.
pub open spec fn token_header() -> Seq<char> {
    "x-attestation-token"@
}

/// Whether the outer request asks for the attestation token to be returned.
pub fn wants_attestation_token(headers: &Vec<Header>) -> (r: bool)
    ensures
        r == has_name(headers_view(headers@), token_header()),
{
    let name = String::from_str("x-attestation-token");
    contains_name(headers, &name)
}

/// The headers of the outer response: its content type, the attestation
/// token when it was asked for, then the backend headers that pass.
pub open spec fn outer_headers(
    return_token: bool,
    token: Seq<char>,
    backend: Seq<(Seq<char>, Seq<char>)>,
) -> Seq<(Seq<char>, Seq<char>)> {
    seq![("content-type"@, "message/ohttp-chunked-res"@)] + (if return_token {
        seq![(token_header(), token)]
    } else {
        seq![]
    }) + passed_headers(backend)
}

/// Builds the header list of the outer response.
pub fn outer_response_headers(return_token: bool, token: &String, backend: &Vec<Header>) -> (r: Vec<
    Header,
>)
    ensures
        headers_view(r@) == outer_headers(return_token, token@, headers_view(backend@)),
{
    let mut out: Vec<Header> = Vec::new();
    out.push((String::from_str("content-type"), String::from_str("message/ohttp-chunked-res")));
    if return_token {
        out.push((String::from_str("x-attestation-token"), token.clone()));
    }
    let mut passed = filter_response_headers(backend);
    out.append(&mut passed);
    assert(headers_view(out@) == outer_headers(return_token, token@, headers_view(backend@)));
    out
}

/// No framing header of the backend reaches the outer response: the only
/// framing header there is the outer response's own content type, first.
pub proof fn lemma_outer_headers_framing(
    return_token: bool,
    token: Seq<char>,
    backend: Seq<(Seq<char>, Seq<char>)>,
)
    ensures
        forall|i: int|
            0 <= i < outer_headers(return_token, token, backend).len() && is_framing_header(
                #[trigger] outer_headers(return_token, token, backend)[i].0,
            ) ==> i == 0,
        outer_headers(return_token, token, backend)[0] == ("content-type"@,
        "message/ohttp-chunked-res"@),
{
    reveal_strlit("x-attestation-token");
    reveal_strlit("content-type");
    reveal_strlit("content-length");
    lemma_filter_drops_framing(backend);
    let front = seq![("content-type"@, "message/ohttp-chunked-res"@)] + (if return_token {
        seq![(token_header(), token)]
    } else {
        seq![]
    });
    let r = outer_headers(return_token, token, backend);
    assert(r == front + passed_headers(backend));
    assert forall|i: int| 0 <= i < r.len() && is_framing_header(#[trigger] r[i].0) implies i
        == 0 by {
        if i >= front.len() {
            assert(r[i] == passed_headers(backend)[i - front.len()]);
        } else if i == 1 {
            assert(r[i].0 == token_header());
        }
    }
}

} // verus!
