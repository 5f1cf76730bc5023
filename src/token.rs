//! Stateless session tokens: the issue and expiry times, signed with
//! HMAC-SHA256 under the process's secret and written as lowercase hex.

use vstd::prelude::*;
use vstd::utf8::encode_utf8;
use crate::text::{hex_bytes, hex_decode, lemma_hex_injective, push_hex, string_from_utf8, is_ascii_bytes, hex_digit};

verus! {

/// A session token: valid from `issued_at` up to, not including, `expires_at`
/// (seconds since the Unix epoch).
#[derive(Clone, Copy, Debug, PartialEq, Eq, Structural)]
pub struct Token {
    pub issued_at: u64,
    pub expires_at: u64,
}

/// Why a request carries no valid token.
#[derive(Clone, Copy, Debug, PartialEq, Eq, Structural)]
pub enum AuthError {
    /// No `token` cookie.
    Missing,
    /// Not a token, or not signed with this secret.
    Invalid,
    /// Signed with this secret, but expired.
    Expired,
}

/// HMAC-SHA256 of `data` under `key`.
pub uninterp spec fn hmac_sha256(key: Seq<u8>, data: Seq<u8>) -> Seq<u8>;

/// Relies on ring::hmac::sign with HMAC_SHA256.
#[verifier::external_body]
fn hmac_sign(key: &[u8; 32], data: &[u8]) -> (r: Vec<u8>)
    requires
        data@.len() <= 0xFFFF_FFFF,
    ensures
        r@ == hmac_sha256(key@, data@),
        r@.len() == 32,
{
    let k = ring::hmac::Key::new(ring::hmac::HMAC_SHA256, key);
    ring::hmac::sign(&k, data).as_ref().to_vec()
}

/// Relies on ring::hmac::verify with HMAC_SHA256: it recomputes the tag of
/// `data` and compares it with `tag` in constant time.
#[verifier::external_body]
fn hmac_verify(key: &[u8; 32], data: &[u8], tag: &[u8]) -> (r: bool)
    requires
        data@.len() <= 0xFFFF_FFFF,
    ensures
        r == (tag@ == hmac_sha256(key@, data@)),
{
    let k = ring::hmac::Key::new(ring::hmac::HMAC_SHA256, key);
    ring::hmac::verify(&k, data, tag).is_ok()
}

/// Big-endian bytes of a 64-bit number.
pub open spec fn be8(n: u64) -> Seq<u8> {
    seq![
        (n >> 56u64) as u8,
        (n >> 48u64) as u8,
        (n >> 40u64) as u8,
        (n >> 32u64) as u8,
        (n >> 24u64) as u8,
        (n >> 16u64) as u8,
        (n >> 8u64) as u8,
        n as u8,
    ]
}

/// The signed claims of a token.
pub open spec fn claims(t: Token) -> Seq<u8> {
    be8(t.issued_at) + be8(t.expires_at)
}

/// The text of a token signed with `key`, as bytes.
pub open spec fn token_bytes(t: Token, key: Seq<u8>) -> Seq<u8> {
    hex_bytes(claims(t) + hmac_sha256(key, claims(t)))
}

/// `text` is the encoding of `t` signed with `key`.
pub open spec fn signed_by(text: Seq<char>, t: Token, key: Seq<u8>) -> bool {
    encode_utf8(text) == token_bytes(t, key)
}

/// What checking `text` against `key` at time `now` yields.
pub open spec fn check_result(text: Seq<char>, key: Seq<u8>, now: u64) -> Result<Token, AuthError> {
    if exists|t: Token| signed_by(text, t, key) {
        let t = choose|t: Token| signed_by(text, t, key);
        if now < t.expires_at {
            Ok(t)
        } else {
            Err(AuthError::Expired)
        }
    } else {
        Err(AuthError::Invalid)
    }
}

/// What the guard of a protected route yields for an optional cookie value.
pub open spec fn authenticate_result(cookie: Option<Seq<char>>, key: Seq<u8>, now: u64) -> Result<Token, AuthError> {
    match cookie {
        None => Err(AuthError::Missing),
        Some(text) => check_result(text, key, now),
    }
}

proof fn lemma_be8_injective(x: u64, y: u64)
    requires
        be8(x) == be8(y),
    ensures
        x == y,
{
    let bx = be8(x);
    let by_ = be8(y);
    assert(bx[0] == by_[0] && bx[1] == by_[1] && bx[2] == by_[2] && bx[3] == by_[3]);
    assert(bx[4] == by_[4] && bx[5] == by_[5] && bx[6] == by_[6] && bx[7] == by_[7]);
    assert(((x >> 56u64) as u8 == (y >> 56u64) as u8 && (x >> 48u64) as u8 == (y >> 48u64) as u8
        && (x >> 40u64) as u8 == (y >> 40u64) as u8 && (x >> 32u64) as u8 == (y >> 32u64) as u8
        && (x >> 24u64) as u8 == (y >> 24u64) as u8 && (x >> 16u64) as u8 == (y >> 16u64) as u8
        && (x >> 8u64) as u8 == (y >> 8u64) as u8 && x as u8 == y as u8) ==> x == y) by (bit_vector);
}

/// One text encodes at most one token under a key.
pub proof fn lemma_signed_unique(text: Seq<char>, t1: Token, t2: Token, key: Seq<u8>)
    requires
        signed_by(text, t1, key),
        signed_by(text, t2, key),
    ensures
        t1 == t2,
{
    let d1 = claims(t1) + hmac_sha256(key, claims(t1));
    let d2 = claims(t2) + hmac_sha256(key, claims(t2));
    lemma_hex_injective(d1, d2);
    assert(d1.subrange(0, 8) =~= be8(t1.issued_at));
    assert(d2.subrange(0, 8) =~= be8(t2.issued_at));
    assert(d1.subrange(8, 16) =~= be8(t1.expires_at));
    assert(d2.subrange(8, 16) =~= be8(t2.expires_at));
    lemma_be8_injective(t1.issued_at, t2.issued_at);
    lemma_be8_injective(t1.expires_at, t2.expires_at);
}

/// A token encoded with a secret checks against the same secret as valid
/// before its expiry time and as expired from then on.
pub proof fn lemma_token_round_trip(t: Token, key: Seq<u8>, text: Seq<char>, now: u64)
    requires
        signed_by(text, t, key),
    ensures
        check_result(text, key, now) == (if now < t.expires_at { Ok::<Token, AuthError>(t) } else { Err(AuthError::Expired) }),
{
    let c = choose|c: Token| signed_by(text, c, key);
    lemma_signed_unique(text, t, c, key);
}

fn push_be8(n: u64, out: &mut Vec<u8>)
    ensures
        final(out)@ == old(out)@ + be8(n),
{
    out.push((n >> 56u64) as u8);
    out.push((n >> 48u64) as u8);
    out.push((n >> 40u64) as u8);
    out.push((n >> 32u64) as u8);
    out.push((n >> 24u64) as u8);
    out.push((n >> 16u64) as u8);
    out.push((n >> 8u64) as u8);
    out.push(n as u8);
    assert(out@ =~= old(out)@ + be8(n));
}

fn read_be8(d: &Vec<u8>, at: usize) -> (r: u64)
    requires
        at + 8 <= d@.len(),
    ensures
        be8(r) == d@.subrange(at as int, at + 8),
{
    let len: usize = d.len();
    assert(at + 8 <= len);
    let b0 = d[at];
    let b1 = d[at + 1];
    let b2 = d[at + 2];
    let b3 = d[at + 3];
    let b4 = d[at + 4];
    let b5 = d[at + 5];
    let b6 = d[at + 6];
    let b7 = d[at + 7];
    let r: u64 = ((b0 as u64) << 56u64) | ((b1 as u64) << 48u64) | ((b2 as u64) << 40u64) | ((b3 as u64)
        << 32u64) | ((b4 as u64) << 24u64) | ((b5 as u64) << 16u64) | ((b6 as u64) << 8u64) | (b7 as u64);
    assert((r >> 56u64) as u8 == b0 && (r >> 48u64) as u8 == b1 && (r >> 40u64) as u8 == b2
        && (r >> 32u64) as u8 == b3 && (r >> 24u64) as u8 == b4 && (r >> 16u64) as u8 == b5
        && (r >> 8u64) as u8 == b6 && r as u8 == b7) by (bit_vector)
        requires
            r == ((b0 as u64) << 56u64) | ((b1 as u64) << 48u64) | ((b2 as u64) << 40u64) | ((b3 as u64)
                << 32u64) | ((b4 as u64) << 24u64) | ((b5 as u64) << 16u64) | ((b6 as u64) << 8u64)
                | (b7 as u64),
    ;
    assert(be8(r) =~= d@.subrange(at as int, at + 8));
    r
}

fn copy_from(d: &Vec<u8>, from: usize) -> (r: Vec<u8>)
    requires
        from <= d@.len(),
    ensures
        r@ == d@.subrange(from as int, d@.len() as int),
{
    let mut r: Vec<u8> = Vec::new();
    let mut i: usize = from;
    while i < d.len()
        invariant
            from <= i <= d@.len(),
            r@ == d@.subrange(from as int, i as int),
        decreases d@.len() - i,
    {
        r.push(d[i]);
        i = i + 1;
        assert(r@ =~= d@.subrange(from as int, i as int));
    }
    r
}

proof fn lemma_hex_ascii(d: Seq<u8>)
    ensures
        is_ascii_bytes(hex_bytes(d)),
{
    assert forall|i: int| 0 <= i < hex_bytes(d).len() implies #[trigger] hex_bytes(d)[i] < 128 by {
        let v = if i % 2 == 0 { d[i / 2] as int / 16 } else { d[i / 2] as int % 16 };
        assert(hex_digit(v) < 128);
    }
}

impl Token {
    /// A token issued at `now` that lasts `timeout` seconds.
    pub fn issue(now: u64, timeout: u64) -> (r: Token)
        requires
            now + timeout <= u64::MAX,
        ensures
            r.issued_at == now,
            r.expires_at == now + timeout,
    {
        Token { issued_at: now, expires_at: now + timeout }
    }

    /// The token's cookie-safe text, signed with `secret`.
    pub fn encode(&self, secret: &[u8; 32]) -> (r: String)
        ensures
            signed_by(r@, *self, secret@),
    {
        let mut c: Vec<u8> = Vec::new();
        push_be8(self.issued_at, &mut c);
        push_be8(self.expires_at, &mut c);
        let tag = hmac_sign(secret, c.as_slice());
        let mut all: Vec<u8> = c.clone();
        let mut i: usize = 0;
        while i < tag.len()
            invariant
                c@ == claims(*self),
                c@.len() == 16,
                tag@.len() == 32,
                i <= tag@.len(),
                all@ == c@ + tag@.subrange(0, i as int),
            decreases tag@.len() - i,
        {
            all.push(tag[i]);
            i = i + 1;
            assert(all@ =~= c@ + tag@.subrange(0, i as int));
        }
        assert(tag@.subrange(0, tag@.len() as int) =~= tag@);
        let mut out: Vec<u8> = Vec::new();
        push_hex(all.as_slice(), &mut out);
        assert(out@ =~= hex_bytes(all@));
        proof {
            lemma_hex_ascii(all@);
        }
        match string_from_utf8(out) {
            Some(s) => s,
            None => {
                assert(false);
                String::new()
            },
        }
    }
}

/// Checks a token's text: its signature under `secret`, then its expiry
/// against `now`.
pub fn decode_and_verify(text: &str, secret: &[u8; 32], now: u64) -> (r: Result<Token, AuthError>)
    ensures
        r == check_result(text@, secret@, now),
{
    let bytes = text.as_bytes();
    let d = match hex_decode(bytes) {
        Some(d) => d,
        None => {
            proof {
                assert forall|t: Token| !signed_by(text@, t, secret@) by {
                    if signed_by(text@, t, secret@) {
                        let dd = claims(t) + hmac_sha256(secret@, claims(t));
                        assert(hex_bytes(dd) == bytes@);
                    }
                }
            }
            return Err(AuthError::Invalid);
        },
    };
    if d.len() < 16 {
        proof {
            assert forall|t: Token| !signed_by(text@, t, secret@) by {
                if signed_by(text@, t, secret@) {
                    let dd = claims(t) + hmac_sha256(secret@, claims(t));
                    lemma_hex_injective(dd, d@);
                }
            }
        }
        return Err(AuthError::Invalid);
    }
    let t = Token { issued_at: read_be8(&d, 0), expires_at: read_be8(&d, 8) };
    let mut c: Vec<u8> = Vec::new();
    push_be8(t.issued_at, &mut c);
    push_be8(t.expires_at, &mut c);
    assert(c@ =~= d@.subrange(0, 16));
    let tag = copy_from(&d, 16);
    assert(d@ =~= c@ + tag@);
    if !hmac_verify(secret, c.as_slice(), tag.as_slice()) {
        proof {
            assert forall|t2: Token| !signed_by(text@, t2, secret@) by {
                if signed_by(text@, t2, secret@) {
                    let dd = claims(t2) + hmac_sha256(secret@, claims(t2));
                    lemma_hex_injective(dd, d@);
                    assert(dd.subrange(0, 8) =~= be8(t2.issued_at));
                    assert(dd.subrange(8, 16) =~= be8(t2.expires_at));
                    assert(d@.subrange(0, 8) =~= be8(t.issued_at));
                    assert(d@.subrange(8, 16) =~= be8(t.expires_at));
                    lemma_be8_injective(t.issued_at, t2.issued_at);
                    lemma_be8_injective(t.expires_at, t2.expires_at);
                    assert(dd.subrange(16, dd.len() as int) =~= hmac_sha256(secret@, claims(t2)));
                    assert(d@.subrange(16, d@.len() as int) =~= tag@);
                }
            }
        }
        return Err(AuthError::Invalid);
    }
    assert(signed_by(text@, t, secret@));
    proof {
        lemma_token_round_trip(t, secret@, text@, now);
    }
    if now >= t.expires_at {
        Err(AuthError::Expired)
    } else {
        Ok(t)
    }
}

/// The guard of protected routes: the value of the `token` cookie, if any,
/// checked against `secret` at time `now`.
pub fn authenticate(cookie: Option<&str>, secret: &[u8; 32], now: u64) -> (r: Result<Token, AuthError>)
    ensures
        r == authenticate_result(
            match cookie {
                Some(s) => Some(s@),
                None => None,
            },
            secret@,
            now,
        ),
{
    match cookie {
        None => Err(AuthError::Missing),
        Some(s) => decode_and_verify(s, secret, now),
    }
}

} // verus!
