//! The Basic-auth guard.
use vstd::prelude::*;
use crate::dispatch::Method;

verus! {

broadcast use vstd::string::group_string_axioms;

/// The bytes that a base64 text decodes to, when it is valid base64.
pub uninterp spec fn base64_decoded(s: Seq<char>) -> Option<Seq<u8>>;

/// Relies on `base64::decode` (standard alphabet, padded): the decoded
/// bytes, or an error for text that is not valid base64.
#[verifier::external_body]
fn base64_decode(s: &str) -> (r: Option<Vec<u8>>)
    ensures
        r.is_some() == base64_decoded(s@).is_some(),
        r.is_some() ==> r.unwrap()@ == base64_decoded(s@).unwrap(),
{
    base64::decode(s).ok()
}

/// The credential part of an `Authorization` value of the form `Basic <token>`.
pub open spec fn basic_token(h: Seq<char>) -> Option<Seq<char>> {
    if h.len() >= 6 && h.subrange(0, 6) == seq!['B', 'a', 's', 'i', 'c', ' '] {
        Some(h.subrange(6, h.len() as int))
    } else {
        None
    }
}

/// Whether decoded credential bytes are exactly the configured `user:pass`.
pub open spec fn credential_ok(decoded: Option<Seq<u8>>, credential: Seq<char>) -> bool {
    decoded matches Some(b) && b == vstd::utf8::encode_utf8(credential)
}

/// The guard's decision: with no credential configured every request passes;
/// with one, a request passes by an `Authorization: Basic` value that decodes
/// to exactly the credential, or, carrying none, by being a GET while
/// anonymous reads are allowed.
pub open spec fn auth_spec(
    credential: Option<Seq<char>>,
    authorization: Option<Seq<char>>,
    anonymous_read: bool,
    method: Method,
) -> bool {
    match credential {
        None => true,
        Some(c) => match authorization {
            None => anonymous_read && method == Method::Get,
            Some(h) => match basic_token(h) {
                None => false,
                Some(t) => credential_ok(base64_decoded(t), c),
            },
        },
    }
}

/// Whether decoded credential bytes are exactly `credential`'s UTF-8 bytes.
pub fn credential_matches(decoded: &Option<Vec<u8>>, credential: &str) -> (r: bool)
    ensures
        r == credential_ok(
            match decoded {
                Some(v) => Some(v@),
                None => None,
            },
            credential@,
        ),
{
    match decoded {
        None => false,
        Some(v) => bytes_equal(v, credential.as_bytes()),
    }
}

fn bytes_equal(a: &Vec<u8>, b: &[u8]) -> (r: bool)
    ensures
        r == (a@ == b@),
{
    if a.len() != b.len() {
        return false;
    }
    let mut i: usize = 0;
    while i < a.len()
        invariant
            a@.len() == b@.len(),
            i <= a@.len(),
            forall|k: int| 0 <= k < i ==> a@[k] == b@[k],
        decreases a.len() - i,
    {
        if a[i] != b[i] {
            assert(a@[i as int] != b@[i as int]);
            return false;
        }
        i = i + 1;
    }
    assert(a@ =~= b@);
    true
}

/// Decides whether a request passes the auth guard.
pub fn auth_passes(credential: Option<&str>, authorization: Option<&str>, anonymous_read: bool, method: Method) -> (r: bool)
    ensures
        r == auth_spec(
            match credential {
                Some(c) => Some(c@),
                None => None,
            },
            match authorization {
                Some(h) => Some(h@),
                None => None,
            },
            anonymous_read,
            method,
        ),
{
    match credential {
        None => true,
        Some(c) => match authorization {
            None => anonymous_read && method == Method::Get,
            Some(h) => {
                let n = h.unicode_len();
                if n >= 6 && h.get_char(0) == 'B' && h.get_char(1) == 'a' && h.get_char(2) == 's'
                    && h.get_char(3) == 'i' && h.get_char(4) == 'c' && h.get_char(5) == ' ' {
                    assert(h@.subrange(0, 6) =~= seq!['B', 'a', 's', 'i', 'c', ' ']);
                    let token = h.substring_char(6, n);
                    let decoded = base64_decode(token);
                    credential_matches(&decoded, c)
                } else {
                    assert(n >= 6 ==> h@.subrange(0, 6)[0] == h@[0] && h@.subrange(0, 6)[1] == h@[1]
                        && h@.subrange(0, 6)[2] == h@[2] && h@.subrange(0, 6)[3] == h@[3]
                        && h@.subrange(0, 6)[4] == h@[4] && h@.subrange(0, 6)[5] == h@[5]);
                    false
                }
            },
        },
    }
}

/// With no credential configured every request passes; with one and no
/// anonymous reads, a request without credentials is refused whatever its
/// method, a GET as much as a PUT.
pub proof fn lemma_guard_cases(authorization: Option<Seq<char>>, method: Method, credential: Seq<char>)
    ensures
        auth_spec(None, authorization, false, method),
        auth_spec(None, authorization, true, method),
        !auth_spec(Some(credential), None, false, method),
        auth_spec(Some(credential), None, true, Method::Get),
        !auth_spec(Some(credential), None, true, Method::Put),
{
}

} // verus!
