//! The credential gate: reading a `Basic` authorization header.

use vstd::prelude::*;
use vstd::utf8::{decode_utf8, valid_utf8};

use crate::conf::User;

verus! {

/// What base64 decoding (standard alphabet, padded) yields for a text, or
/// `None` when the text is not valid base64.
pub uninterp spec fn base64_decoded(s: Seq<char>) -> Option<Seq<u8>>;

/// Relies on base64's `STANDARD` engine and its `Engine::decode`: the bytes
/// that the text encodes, or an error for an invalid text.
#[verifier::external_body]
fn decode_base64(s: &str) -> (r: Option<Vec<u8>>)
    ensures
        r is None <==> base64_decoded(s@) is None,
        r matches Some(v) ==> base64_decoded(s@) == Some(v@),
{
    base64::Engine::decode(&base64::engine::general_purpose::STANDARD, s).ok()
}

/// Relies on `String::from_utf8`: it fails exactly on bytes that are not
/// valid UTF-8, and otherwise holds the characters they encode.
#[verifier::external_body]
fn utf8_text(b: Vec<u8>) -> (r: Option<String>)
    ensures
        r is Some <==> valid_utf8(b@),
        r matches Some(s) ==> s@ == decode_utf8(b@),
{
    String::from_utf8(b).ok()
}

/// `s` is `a`, then `c`, then `b`, and `a` holds no `c`.
pub open spec fn is_first_split(s: Seq<char>, c: char, a: Seq<char>, b: Seq<char>) -> bool {
    s == a + seq![c] + b && !a.contains(c)
}

/// The parts of `s` before and after its first `c`, if it has one.
pub open spec fn split_first(s: Seq<char>, c: char) -> Option<(Seq<char>, Seq<char>)> {
    if exists|p: (Seq<char>, Seq<char>)| is_first_split(s, c, p.0, p.1) {
        Some(choose|p: (Seq<char>, Seq<char>)| is_first_split(s, c, p.0, p.1))
    } else {
        None
    }
}

pub proof fn lemma_first_split_unique(s: Seq<char>, c: char, a: Seq<char>, b: Seq<char>, a2: Seq<char>, b2: Seq<char>)
    requires
        is_first_split(s, c, a, b),
        is_first_split(s, c, a2, b2),
    ensures
        a == a2,
        b == b2,
{
    if a.len() < a2.len() {
        assert(s[a.len() as int] == c);
        assert(a2[a.len() as int] == c);
    } else if a2.len() < a.len() {
        assert(s[a2.len() as int] == c);
        assert(a[a2.len() as int] == c);
    }
    assert(a =~= s.subrange(0, a.len() as int));
    assert(a2 =~= s.subrange(0, a2.len() as int));
    assert(b =~= s.subrange(a.len() as int + 1, s.len() as int));
    assert(b2 =~= s.subrange(a2.len() as int + 1, s.len() as int));
}

/// The credential that a header value carries: the token after its first
/// space, base64-decoded, read as UTF-8 and cut at its first `:`.
pub open spec fn credential_of(header: Seq<char>) -> Option<(Seq<char>, Seq<char>)> {
    match split_first(header, ' ') {
        None => None,
        Some(p) => credential_of_decoded_opt(base64_decoded(p.1)),
    }
}

pub open spec fn credential_of_decoded_opt(bytes: Option<Seq<u8>>) -> Option<(Seq<char>, Seq<char>)> {
    match bytes {
        None => None,
        Some(b) => credential_of_bytes(b),
    }
}

/// The credential in decoded bytes: UTF-8 text cut at its first `:`.
pub open spec fn credential_of_bytes(b: Seq<u8>) -> Option<(Seq<char>, Seq<char>)> {
    if valid_utf8(b) {
        split_first(decode_utf8(b), ':')
    } else {
        None
    }
}

pub open spec fn user_pair(u: Option<User>) -> Option<(Seq<char>, Seq<char>)> {
    match u {
        Some(u) => Some((u.user@, u.password@)),
        None => None,
    }
}

/// Cuts `s` at its first `c`.
pub fn split_once(s: &str, c: char) -> (r: Option<(String, String)>)
    ensures
        r is None ==> split_first(s@, c) is None,
        r matches Some(p) ==> split_first(s@, c) == Some((p.0@, p.1@)),
{
    let n = s.unicode_len();
    let mut i: usize = 0;
    while i < n
        invariant
            n == s@.len(),
            i <= n,
            !s@.subrange(0, i as int).contains(c),
        decreases n - i,
    {
        if s.get_char(i) == c {
            let a = s.substring_char(0, i).to_owned();
            let b = s.substring_char(i + 1, n).to_owned();
            proof {
                assert(s@ =~= a@ + seq![c] + b@);
                let w = (a@, b@);
                assert(is_first_split(s@, c, w.0, w.1));
                let p = choose|p: (Seq<char>, Seq<char>)| is_first_split(s@, c, p.0, p.1);
                lemma_first_split_unique(s@, c, a@, b@, p.0, p.1);
            }
            return Some((a, b));
        }
        assert(s@.subrange(0, i + 1) =~= s@.subrange(0, i as int).push(s@[i as int]));
        i = i + 1;
    }
    proof {
        assert(s@.subrange(0, n as int) =~= s@);
        if exists|p: (Seq<char>, Seq<char>)| is_first_split(s@, c, p.0, p.1) {
            let p = choose|p: (Seq<char>, Seq<char>)| is_first_split(s@, c, p.0, p.1);
            assert(s@[p.0.len() as int] == c);
        }
    }
    None
}

/// The credential in decoded bytes, when they are UTF-8 and hold a `:`.
pub fn credential_from_decoded(bytes: Vec<u8>) -> (r: Option<User>)
    ensures
        user_pair(r) == credential_of_bytes(bytes@),
{
    match utf8_text(bytes) {
        None => None,
        Some(text) => match split_once(text.as_str(), ':') {
            None => None,
            Some((user, password)) => Some(User { user, password }),
        },
    }
}

/// Reads a `Basic <base64(user:password)>` header value; any failure on the
/// way yields no credential.
pub fn extract_authentication_info(authorization: Option<&str>) -> (r: Option<User>)
    ensures
        authorization is None ==> r is None,
        authorization matches Some(h) ==> user_pair(r) == credential_of(h@),
{
    let header = match authorization {
        Some(h) => h,
        None => {
            return None;
        },
    };
    let token = match split_once(header, ' ') {
        Some((_, t)) => t,
        None => {
            return None;
        },
    };
    match decode_base64(token.as_str()) {
        Some(bytes) => credential_from_decoded(bytes),
        None => None,
    }
}

} // verus!
