//! Credential hashing and the signed, time-bounded bearer tokens.
use crate::claims::{claims_json, read_claims, write_claims};
use crate::errors::AppError;
use crate::text::same_text;
use base64::Engine;
use vstd::prelude::*;

verus! {

/// The character of the URL-safe base64 alphabet for a sextet `v` in `0..64`.
pub open spec fn b64_char(v: int) -> char {
    if v < 26 {
        ((65 + v) as u8) as char
    } else if v < 52 {
        ((71 + v) as u8) as char
    } else if v < 62 {
        ((v - 4) as u8) as char
    } else if v == 62 {
        '-'
    } else {
        '_'
    }
}

/// Unpadded URL-safe base64 of `b`: each group of three bytes becomes four
/// characters, and a final group of one or two bytes becomes two or three.
pub open spec fn b64url_spec(b: Seq<u8>) -> Seq<char>
    decreases b.len(),
{
    let x = b[0] as int;
    let y = b[1] as int;
    let z = b[2] as int;
    if b.len() == 0 {
        Seq::empty()
    } else if b.len() == 1 {
        seq![b64_char(x / 4), b64_char((x % 4) * 16)]
    } else if b.len() == 2 {
        seq![b64_char(x / 4), b64_char((x % 4) * 16 + y / 16), b64_char((y % 16) * 4)]
    } else {
        seq![
            b64_char(x / 4),
            b64_char((x % 4) * 16 + y / 16),
            b64_char((y % 16) * 4 + z / 64),
            b64_char(z % 64),
        ] + b64url_spec(b.subrange(3, b.len() as int))
    }
}

proof fn lemma_b64_char_not_dot(v: int)
    requires
        0 <= v < 64,
    ensures
        b64_char(v) != '.',
{
    if v < 26 {
        assert(((65 + v) as u8) as char as u32 == (65 + v) as u32);
    } else if v < 52 {
        assert(((71 + v) as u8) as char as u32 == (71 + v) as u32);
    } else if v < 62 {
        assert(((v - 4) as u8) as char as u32 == (v - 4) as u32);
    }
}

proof fn lemma_b64_no_dot(b: Seq<u8>)
    ensures
        forall|i: int| 0 <= i < b64url_spec(b).len() ==> #[trigger] b64url_spec(b)[i] != '.',
    decreases b.len(),
{
    if b.len() >= 1 {
        let x = b[0] as int;
        lemma_b64_char_not_dot(x / 4);
        lemma_b64_char_not_dot((x % 4) * 16);
    }
    if b.len() >= 2 {
        let x = b[0] as int;
        let y = b[1] as int;
        lemma_b64_char_not_dot((x % 4) * 16 + y / 16);
        lemma_b64_char_not_dot((y % 16) * 4);
    }
    if b.len() >= 3 {
        let y = b[1] as int;
        let z = b[2] as int;
        lemma_b64_char_not_dot((y % 16) * 4 + z / 64);
        lemma_b64_char_not_dot(z % 64);
        let rest = b.subrange(3, b.len() as int);
        lemma_b64_no_dot(rest);
        assert forall|i: int| 0 <= i < b64url_spec(b).len() implies #[trigger] b64url_spec(b)[i]
            != '.' by {
            if i >= 4 {
                assert(b64url_spec(b)[i] == b64url_spec(rest)[i - 4]);
            }
        }
    }
}

/// `{"typ":"JWT","alg":"HS256"}`, the one header this service writes and accepts.
pub open spec fn header_json() -> Seq<u8> {
    seq![
        123u8, 34, 116, 121, 112, 34, 58, 34, 74, 87, 84, 34, 44, 34, 97, 108, 103, 34, 58, 34,
        72, 83, 50, 53, 54, 34, 125,
    ]
}

/// The HMAC-SHA256 tag of the UTF-8 bytes of `message` under `key`.
pub uninterp spec fn hmac_sha256_of(key: Seq<u8>, message: Seq<char>) -> Seq<u8>;

/// The HS256 signature text of a message under a secret.
pub open spec fn hs256_signature(secret: Seq<u8>, message: Seq<char>) -> Seq<char> {
    b64url_spec(hmac_sha256_of(secret, message))
}

/// The part of a token that the signature covers: encoded header, a dot, encoded claims.
pub open spec fn signed_part(sub: int, exp: int) -> Seq<char> {
    b64url_spec(header_json()) + seq!['.'] + b64url_spec(claims_json(sub, exp))
}

/// A token text for a subject and an expiry that carries `sig` as its signature.
pub open spec fn with_signature(sub: int, exp: int, sig: Seq<char>) -> Seq<char> {
    signed_part(sub, exp) + seq!['.'] + sig
}

/// The token for a subject and an expiry, signed with `secret`.
pub open spec fn token_of(secret: Seq<u8>, sub: int, exp: int) -> Seq<char> {
    with_signature(sub, exp, hs256_signature(secret, signed_part(sub, exp)))
}

/// How long a token stays valid after it was issued, in seconds.
pub const TOKEN_LIFETIME_SECS: i64 = 86400;

/// Whether `token` is the one issued for `id` at time `now`.
pub open spec fn issued_at(secret: Seq<u8>, token: Seq<char>, id: int, now: int) -> bool {
    token == token_of(secret, id, now + TOKEN_LIFETIME_SECS)
}

/// Whether `token` is accepted at time `now` as a proof of identity `id`.
pub open spec fn token_accepts(secret: Seq<u8>, token: Seq<char>, now: int, id: int) -> bool {
    exists|exp: i64| now <= exp && token == token_of(secret, id, exp as int)
}

/// The refusal of a token: `Unauthorized`, with one fixed message whatever check failed.
pub open spec fn is_token_refusal(e: AppError) -> bool {
    e is Unauthorized && e.spec_message() == "Invalid token"@
}

/// The form of a bcrypt hash written at cost 12: `$2b$12$`, then 22 characters of
/// salt and 31 of hash, 60 in all.
pub open spec fn bcrypt_cost12_form(h: Seq<char>) -> bool {
    h.len() == 60 && h.subrange(0, 7) == "$2b$12$"@
}

/// Whether `hashed` is a bcrypt hash that `password` matches.
pub open spec fn password_matches(password: Seq<char>, hashed: Seq<char>) -> bool {
    bcrypt_verdict(password, hashed) == Some(true)
}

/// What `bcrypt::verify` returns for a password and a stored hash: `Some` of its
/// verdict, or `None` where it reports an error.
pub uninterp spec fn bcrypt_verdict(password: Seq<char>, hashed: Seq<char>) -> Option<bool>;

#[verifier::external_type_specification]
#[verifier::external_body]
pub struct ExBcryptError(bcrypt::BcryptError);

#[verifier::external_type_specification]
#[verifier::external_body]
pub struct ExDecodeError(base64::DecodeError);

#[verifier::external_type_specification]
#[verifier::external_body]
pub struct ExJwtError(jsonwebtoken::errors::Error);

/// Relies on `bcrypt::hash` at `DEFAULT_COST` (12): it draws a fresh random salt, writes
/// the `$2b$12$` form, and a hash it returns is one that `bcrypt::verify` accepts for
/// the same password.
#[verifier::external_body]
fn bcrypt_hash(password: &str) -> (r: Result<String, bcrypt::BcryptError>)
    ensures
        r is Ok ==> bcrypt_verdict(password@, r->Ok_0@) == Some(true),
        r is Ok ==> bcrypt_cost12_form(r->Ok_0@),
{
    bcrypt::hash(password, bcrypt::DEFAULT_COST)
}

/// Relies on `bcrypt::verify`: recomputes the hash with the stored salt and cost and
/// compares; a malformed stored hash is an error.
#[verifier::external_body]
fn bcrypt_verify(password: &str, hashed: &str) -> (r: Result<bool, bcrypt::BcryptError>)
    ensures
        match r {
            Ok(b) => bcrypt_verdict(password@, hashed@) == Some(b),
            Err(_) => bcrypt_verdict(password@, hashed@) is None,
        },
{
    bcrypt::verify(password, hashed)
}

/// Relies on base64's `URL_SAFE_NO_PAD` engine: unpadded URL-safe base64.
#[verifier::external_body]
fn b64url_encode(bytes: &[u8]) -> (r: String)
    ensures
        r@ == b64url_spec(bytes@),
{
    base64::engine::general_purpose::URL_SAFE_NO_PAD.encode(bytes)
}

/// Relies on base64's `URL_SAFE_NO_PAD` engine, which decodes exactly the canonical
/// unpadded encodings: what it accepts re-encodes to the input, and the encoding of
/// any bytes decodes back to them.
#[verifier::external_body]
fn b64url_decode(text: &str) -> (r: Result<Vec<u8>, base64::DecodeError>)
    ensures
        r is Ok ==> b64url_spec(r->Ok_0@) == text@,
        forall|b: Seq<u8>| #[trigger] b64url_spec(b) == text@ ==> (r is Ok && r->Ok_0@ == b),
{
    base64::engine::general_purpose::URL_SAFE_NO_PAD.decode(text)
}

/// Relies on `jsonwebtoken::crypto::sign` with HS256: the HMAC-SHA256 tag of the
/// message under the secret, in unpadded URL-safe base64; for HMAC it never fails.
#[verifier::external_body]
fn hs256_sign(secret: &[u8], message: &str) -> (r: Result<String, jsonwebtoken::errors::Error>)
    ensures
        r is Ok,
        r is Ok ==> r->Ok_0@ == b64url_spec(hmac_sha256_of(secret@, message@)),
{
    jsonwebtoken::crypto::sign(
        message.as_bytes(),
        &jsonwebtoken::EncodingKey::from_secret(secret),
        jsonwebtoken::Algorithm::HS256,
    )
}

/// Relies on `jsonwebtoken::crypto::verify` with HS256: it re-signs the message and
/// compares the result with the given signature; for HMAC it never fails.
#[verifier::external_body]
fn hs256_verify(secret: &[u8], message: &str, signature: &str) -> (r: Result<
    bool,
    jsonwebtoken::errors::Error,
>)
    ensures
        r is Ok,
        r is Ok ==> r->Ok_0 == (signature@ == b64url_spec(hmac_sha256_of(secret@, message@))),
{
    jsonwebtoken::crypto::verify(
        signature,
        message.as_bytes(),
        &jsonwebtoken::DecodingKey::from_secret(secret),
        jsonwebtoken::Algorithm::HS256,
    )
}

/// Hashes a password with a fresh random salt; a failure of the hasher is an internal error.
pub fn hash_password(password: &str) -> (r: Result<String, AppError>)
    ensures
        match r {
            Ok(h) => password_matches(password@, h@) && bcrypt_cost12_form(h@),
            Err(e) => e is InternalServerError,
        },
{
    match bcrypt_hash(password) {
        Ok(h) => Ok(h),
        Err(_) => Err(AppError::InternalServerError("Failed to hash password".to_string())),
    }
}

/// Whether `password` matches the stored hash; a malformed hash matches nothing.
pub fn verify_password(password: &str, hashed_password: &str) -> (r: bool)
    ensures
        r == password_matches(password@, hashed_password@),
{
    match bcrypt_verify(password, hashed_password) {
        Ok(b) => b,
        Err(_) => false,
    }
}

fn header_bytes() -> (r: Vec<u8>)
    ensures
        r@ == header_json(),
{
    let r: Vec<u8> = vec![
        123u8, 34, 116, 121, 112, 34, 58, 34, 74, 87, 84, 34, 44, 34, 97, 108, 103, 34, 58, 34,
        72, 83, 50, 53, 54, 34, 125,
    ];
    assert(r@ =~= header_json());
    r
}

/// The token for `user_id` issued at time `now`, valid until a day later.
/// It fails only where that expiry would not fit in an `i64`.
pub fn generate_jwt(secret: &[u8], user_id: i32, now: i64) -> (r: Result<String, AppError>)
    ensures
        match r {
            Ok(t) => t@ == token_of(secret@, user_id as int, now + TOKEN_LIFETIME_SECS),
            Err(e) => e is InternalServerError && now + TOKEN_LIFETIME_SECS > i64::MAX,
        },
        r is Ok <==> now + TOKEN_LIFETIME_SECS <= i64::MAX,
{
    if now > i64::MAX - TOKEN_LIFETIME_SECS {
        return Err(AppError::InternalServerError("Token expiry out of range".to_string()));
    }
    let exp = now + TOKEN_LIFETIME_SECS;
    let header = b64url_encode(header_bytes().as_slice());
    let claims = b64url_encode(write_claims(user_id as i64, exp).as_slice());
    proof {
        reveal_strlit(".");
    }
    let message = header.concat(".").concat(claims.as_str());
    assert(message@ =~= signed_part(user_id as int, exp as int));
    match hs256_sign(secret, message.as_str()) {
        Ok(sig) => {
            let token = message.concat(".").concat(sig.as_str());
            assert(token@ =~= token_of(secret@, user_id as int, exp as int));
            Ok(token)
        },
        Err(_) => Err(AppError::InternalServerError("Failed to sign token".to_string())),
    }
}

/// Where the two dots of a token text stand, and what lies between them.
proof fn lemma_token_layout(sub: int, exp: int, sig: Seq<char>)
    ensures
        ({
            let hd = b64url_spec(header_json());
            let cl = b64url_spec(claims_json(sub, exp));
            let t = with_signature(sub, exp, sig);
            let h = hd.len() as int;
            let c = cl.len() as int;
            &&& t.len() == h + c + 2 + sig.len()
            &&& t[h] == '.'
            &&& t[h + 1 + c] == '.'
            &&& forall|k: int| 0 <= k < h ==> t[k] != '.'
            &&& forall|k: int| h + 1 <= k < h + 1 + c ==> t[k] != '.'
            &&& t.subrange(0, h) == hd
            &&& t.subrange(h + 1, h + 1 + c) == cl
            &&& t.subrange(0, h + 1 + c) == signed_part(sub, exp)
            &&& t.subrange(h + 2 + c, t.len() as int) == sig
        }),
{
    let hd = b64url_spec(header_json());
    let cl = b64url_spec(claims_json(sub, exp));
    let t = with_signature(sub, exp, sig);
    let h = hd.len() as int;
    let c = cl.len() as int;
    lemma_b64_no_dot(header_json());
    lemma_b64_no_dot(claims_json(sub, exp));
    assert forall|k: int| 0 <= k < h implies t[k] != '.' by {
        assert(t[k] == hd[k]);
    }
    assert forall|k: int| h + 1 <= k < h + 1 + c implies t[k] != '.' by {
        assert(t[k] == cl[k - h - 1]);
    }
    assert(t.subrange(0, h) =~= hd);
    assert(t.subrange(h + 1, h + 1 + c) =~= cl);
    assert(t.subrange(0, h + 1 + c) =~= signed_part(sub, exp));
    assert(t.subrange(h + 2 + c, t.len() as int) =~= sig);
}

/// The first position at or after `from` that holds `c`.
fn find_char(s: &str, from: usize, c: char) -> (r: Option<usize>)
    ensures
        match r {
            Some(i) => from <= i < s@.len() && s@[i as int] == c && forall|k: int|
                from <= k < i ==> s@[k] != c,
            None => forall|k: int| from <= k < s@.len() ==> s@[k] != c,
        },
{
    let n = s.unicode_len();
    let mut i = from;
    while i < n
        invariant
            n == s@.len(),
            from <= i,
            forall|k: int| from <= k < i ==> s@[k] != c,
        decreases n - i,
    {
        if s.get_char(i) == c {
            return Some(i);
        }
        i = i + 1;
    }
    None
}

fn unauthorized() -> (e: AppError)
    ensures
        is_token_refusal(e),
{
    AppError::Unauthorized("Invalid token".to_string())
}

/// Checks a token at time `now`: the header must be the HS256 one, the signature must
/// match the secret, the claims must be well formed, the expiry must not have passed
/// and the subject must be an identity. Every failure is `Unauthorized`.
#[verifier::rlimit(40)]
pub fn validate_jwt(secret: &[u8], token: &str, now: i64) -> (r: Result<i32, AppError>)
    ensures
        match r {
            Ok(id) => token_accepts(secret@, token@, now as int, id as int),
            Err(e) => is_token_refusal(e),
        },
        forall|id: i32, exp: i64| #[trigger] token_of(secret@, id as int, exp as int) == token@ ==> (
        if now <= exp {
            r == Ok::<i32, AppError>(id)
        } else {
            r is Err
        }),
        forall|id: i32, exp: i64, sig: Seq<char>| #[trigger]
            with_signature(id as int, exp as int, sig) == token@ && sig != hs256_signature(
                secret@,
                signed_part(id as int, exp as int),
            ) ==> r is Err,
{
    let n = token.unicode_len();
    let ghost t = token@;
    let d1 = match find_char(token, 0, '.') {
        Some(i) => i,
        None => {
            assert forall|id: i32, exp: i64, sig: Seq<char>| with_signature(
                id as int,
                exp as int,
                sig,
            ) != t by {
                lemma_token_layout(id as int, exp as int, sig);
            }
            return Err(unauthorized());
        },
    };
    let d2 = match find_char(token, d1 + 1, '.') {
        Some(i) => i,
        None => {
            assert forall|id: i32, exp: i64, sig: Seq<char>| with_signature(
                id as int,
                exp as int,
                sig,
            ) != t by {
                lemma_token_layout(id as int, exp as int, sig);
            }
            return Err(unauthorized());
        },
    };
    let head = token.substring_char(0, d1);
    let body = token.substring_char(d1 + 1, d2);
    let message = token.substring_char(0, d2);
    let signature = token.substring_char(d2 + 1, n);
    assert forall|id: i32, exp: i64, sig: Seq<char>| #[trigger]
        with_signature(id as int, exp as int, sig) == t implies head@ == b64url_spec(header_json())
        && body@ == b64url_spec(claims_json(id as int, exp as int)) && message@ == signed_part(
        id as int,
        exp as int,
    ) && signature@ == sig by {
        lemma_token_layout(id as int, exp as int, sig);
    }
    assert(t =~= message@ + seq!['.'] + signature@);
    assert(message@ =~= head@ + seq!['.'] + body@);
    let expected = b64url_encode(header_bytes().as_slice());
    if !same_text(head, expected.as_str()) {
        return Err(unauthorized());
    }
    let valid = match hs256_verify(secret, message, signature) {
        Ok(v) => v,
        Err(_) => return Err(unauthorized()),
    };
    if !valid {
        return Err(unauthorized());
    }
    let claims = match b64url_decode(body) {
        Ok(c) => c,
        Err(_) => return Err(unauthorized()),
    };
    let (sub, exp) = match read_claims(claims.as_slice()) {
        Some(p) => p,
        None => return Err(unauthorized()),
    };
    assert(t == token_of(secret@, sub as int, exp as int));
    if exp < now {
        return Err(unauthorized());
    }
    if sub < i32::MIN as i64 || sub > i32::MAX as i64 {
        assert forall|id: i32, e: i64| #[trigger] token_of(secret@, id as int, e as int) != t by {
            if token_of(secret@, id as int, e as int) == t {
                assert(claims_json(id as int, e as int) == claims@);
            }
        }
        return Err(unauthorized());
    }
    Ok(sub as i32)
}

/// A token issued for `id` at time `issued` is accepted as proof of `id` at any time
/// from its issue until its expiry a day later.
pub proof fn lemma_issued_token_accepted(secret: Seq<u8>, id: i32, issued: i64, now: i64)
    requires
        issued <= now <= issued + TOKEN_LIFETIME_SECS,
        issued + TOKEN_LIFETIME_SECS <= i64::MAX,
    ensures
        token_accepts(
            secret,
            token_of(secret, id as int, issued + TOKEN_LIFETIME_SECS),
            now as int,
            id as int,
        ),
{
    let exp = (issued + TOKEN_LIFETIME_SECS) as i64;
    assert(now <= exp && token_of(secret, id as int, issued + TOKEN_LIFETIME_SECS) == token_of(
        secret,
        id as int,
        exp as int,
    ));
}

} // verus!
