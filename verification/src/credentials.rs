//! Password hashing (bcrypt) and signed session tokens (jsonwebtoken).

use vstd::prelude::*;

verus! {

/// bcrypt's error type.
#[verifier::external_type_specification]
#[verifier::external_body]
pub struct ExBcryptError(bcrypt::BcryptError);

/// jsonwebtoken's error type.
#[verifier::external_type_specification]
#[verifier::external_body]
pub struct ExJwtError(jsonwebtoken::errors::Error);

/// What bcrypt's `verify` says of a password against a stored hash: the
/// verdict, or nothing when the hash cannot be read. It depends on the two
/// texts alone.
pub uninterp spec fn bcrypt_check(password: Seq<char>, hash: Seq<char>) -> Option<bool>;

/// How a bcrypt hash of cost `cost` (4..=31) begins: `$2b$`, the cost in
/// two digits, `$`.
pub open spec fn bcrypt_prefix(cost: u32) -> Seq<char> {
    seq![
        '$',
        '2',
        'b',
        '$',
        crate::text::digit_char((cost / 10) as nat),
        crate::text::digit_char((cost % 10) as nat),
        '$',
    ]
}

/// A fresh bcrypt salt: 16 bytes from the system's randomness, drawn as
/// bcrypt's own `hash` draws them (getrandom `getrandom`), its error
/// turned into bcrypt's `BcryptError::Rand` as bcrypt does. Nothing is
/// claimed: which bytes come, and whether the randomness can be read, is
/// chance.
#[verifier::external_body]
pub(crate) fn draw_salt() -> Result<[u8; 16], bcrypt::BcryptError> {
    let mut s = [0u8; 16];
    getrandom::getrandom(&mut s).map(|_| s).map_err(bcrypt::BcryptError::from)
}

/// The bcrypt hash of `password` at `cost` with the 16-byte `salt`, in
/// bcrypt's `$2b$` form. It depends on the three values alone.
pub uninterp spec fn bcrypt_salted_of(password: Seq<char>, cost: u32, salt: Seq<u8>) -> Seq<char>;

/// bcrypt `hash_with_salt(password, cost, salt)`, written out with
/// `format_for_version(Version::TwoB)` as bcrypt's `hash` writes it.
/// Claimed, as bcrypt's source shows: it fails exactly when the cost lies
/// outside 4..=31; a hash it returns is `bcrypt_salted_of` of its
/// arguments, 60 characters long (`$2b$`, two cost digits, `$`, 22 salt
/// and 31 hash characters), and `verify` accepts the same password
/// against it.
#[verifier::external_body]
pub(crate) fn bcrypt_hash_with_salt(password: &str, cost: u32, salt: [u8; 16]) -> (r: Result<
    String,
    bcrypt::BcryptError,
>)
    ensures
        (cost < 4 || cost > 31) <==> r is Err,
        r matches Ok(h) ==> h@ == bcrypt_salted_of(password@, cost, salt@) && h@.len() == 60
            && h@.take(7) == bcrypt_prefix(cost) && bcrypt_check(password@, h@) == Some(true),
{
    bcrypt::hash_with_salt(password, cost, salt).map(|parts| parts.format_for_version(bcrypt::Version::TwoB))
}

/// bcrypt `verify(password, hash)`. Claimed: its outcome is `bcrypt_check`
/// of the two texts.
#[verifier::external_body]
pub(crate) fn bcrypt_verify(password: &str, hash: &str) -> (r: Result<bool, bcrypt::BcryptError>)
    ensures
        match r {
            Ok(b) => bcrypt_check(password@, hash@) == Some(b),
            Err(_) => bcrypt_check(password@, hash@) is None,
        },
{
    bcrypt::verify(password, hash)
}

/// The HS256 JSON Web Token jsonwebtoken makes for the claims `sub`,
/// `username`, `exp` and `iat` (in that order) signed with `secret`.
pub uninterp spec fn hs256_token(
    sub: Seq<char>,
    username: Seq<char>,
    exp: int,
    iat: int,
    secret: Seq<char>,
) -> Seq<char>;

/// jsonwebtoken `encode` with the default (HS256) header, the claims object
/// `{"sub", "username", "exp", "iat"}` and a key made from the secret's
/// bytes. Claimed, as jsonwebtoken's source shows: it succeeds (the HMAC
/// key matches the HS256 header, serialising strings and integers cannot
/// fail, and HMAC signing returns `Ok`), and the token is `hs256_token` of
/// these values.
#[verifier::external_body]
pub(crate) fn encode_claims(
    sub: &str,
    username: &str,
    exp: i64,
    iat: i64,
    secret: &str,
) -> (r: Result<String, jsonwebtoken::errors::Error>)
    ensures
        r is Ok,
        r matches Ok(t) ==> t@ == hs256_token(sub@, username@, exp as int, iat as int, secret@),
{
    let mut claims = serde_json::Map::new();
    claims.insert("sub".to_string(), serde_json::Value::from(sub));
    claims.insert("username".to_string(), serde_json::Value::from(username));
    claims.insert("exp".to_string(), serde_json::Value::from(exp));
    claims.insert("iat".to_string(), serde_json::Value::from(iat));
    let key = jsonwebtoken::EncodingKey::from_secret(secret.as_bytes());
    jsonwebtoken::encode(&jsonwebtoken::Header::default(), &claims, &key)
}

}
