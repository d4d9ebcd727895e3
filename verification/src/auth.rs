//! Registration and login.

use vstd::prelude::*;
use vstd::string::StringExecFns;
use crate::credentials::{
    bcrypt_check, bcrypt_hash_with_salt, bcrypt_salted_of, bcrypt_verify, draw_salt, encode_claims, hs256_token,
};
use crate::error::AppError;
use crate::models::RegisterRequest;
use crate::runtime::{new_uuid, timestamp_bound, unix_now, uuid_shaped};
use crate::text::{blank, concat, is_blank, utf8_len_at_least};

verus! {

/// The cost factor passwords are hashed with.
pub const PASSWORD_COST: u32 = 10;

/// Whether a registration is acceptable as typed: a user name that is not
/// all white space, and a password of at least four bytes.
pub open spec fn registration_ok(username: Seq<char>, password: Seq<char>) -> bool {
    !blank(username) && vstd::utf8::encode_utf8(password).len() >= 4
}

/// Refuses a registration whose user name is blank or whose password is
/// shorter than four bytes.
pub fn validate_registration(req: &RegisterRequest) -> (r: Result<(), AppError>)
    ensures
        registration_ok(req.username@, req.password@) ==> r is Ok,
        !registration_ok(req.username@, req.password@) ==> (r matches Err(
            AppError::BadRequest(m),
        ) && m@ == "Username cannot be empty and password must be at least 4 characters"@),
{
    if is_blank(req.username.as_str()) || !utf8_len_at_least(req.password.as_str(), 4) {
        return Err(AppError::BadRequest(String::from_str(
            "Username cannot be empty and password must be at least 4 characters",
        )));
    }
    Ok(())
}

/// Refuses a user name that `existing` accounts already use.
pub fn ensure_username_free(existing: i64) -> (r: Result<(), AppError>)
    ensures
        existing <= 0 ==> r is Ok,
        existing > 0 ==> (r matches Err(AppError::Conflict(m)) && m@ == "Username already taken"@),
{
    if existing > 0 {
        return Err(AppError::Conflict(String::from_str("Username already taken")));
    }
    Ok(())
}

/// A new account's id and stored password hash.
pub struct NewAccount {
    pub user_id: String,
    pub password_hash: String,
}

/// The prefix of a hash made with `PASSWORD_COST`.
pub proof fn lemma_cost_prefix()
    ensures
        crate::credentials::bcrypt_prefix(PASSWORD_COST) == "$2b$10$"@,
{
    reveal_strlit("$2b$10$");
    assert(crate::credentials::bcrypt_prefix(PASSWORD_COST) =~= "$2b$10$"@);
}

/// The stored form of `password` with the drawn `salt`: its bcrypt hash
/// at `PASSWORD_COST`. It always succeeds, as the cost is one bcrypt
/// accepts.
pub fn hash_password_with_salt(password: &str, salt: [u8; 16]) -> (h: String)
    ensures
        h@ == bcrypt_salted_of(password@, PASSWORD_COST, salt@),
        h@.len() == 60,
        h@.take(7) == "$2b$10$"@,
        bcrypt_check(password@, h@) == Some(true),
{
    proof {
        lemma_cost_prefix();
    }
    let r = bcrypt_hash_with_salt(password, PASSWORD_COST, salt);
    r.unwrap()
}

/// Makes a fresh user id, draws a salt and hashes the password with it at
/// `PASSWORD_COST`. Only the salt draw can fail; its error is `Internal`,
/// starting with `Failed to hash password: `.
pub fn new_account(password: &str) -> (r: Result<NewAccount, AppError>)
    ensures
        match r {
            Ok(a) => {
                &&& uuid_shaped(a.user_id@)
                &&& exists|salt: Seq<u8>|
                    salt.len() == 16 && a.password_hash@ == #[trigger] bcrypt_salted_of(
                        password@,
                        PASSWORD_COST,
                        salt,
                    )
                &&& a.password_hash@.len() == 60
                &&& a.password_hash@.take(7) == "$2b$10$"@
                &&& bcrypt_check(password@, a.password_hash@) == Some(true)
            },
            Err(e) => e matches AppError::Internal(m) && m@.take(25) == "Failed to hash password: "@,
        },
{
    let user_id = new_uuid();
    match draw_salt() {
        Ok(salt) => {
            let password_hash = hash_password_with_salt(password, salt);
            Ok(NewAccount { user_id, password_hash })
        },
        Err(e) => {
            let text = e.to_string();
            let msg = concat("Failed to hash password: ", text.as_str());
            proof {
                reveal_strlit("Failed to hash password: ");
                assert(msg@.take(25) =~= "Failed to hash password: "@);
            }
            Err(AppError::Internal(msg))
        },
    }
}

/// Whether a token's lifetime can be added to any time the clock gives
/// without leaving the range of `i64`.
pub open spec fn expiry_fits(expiry_hours: i64) -> bool {
    &&& i64::MIN + timestamp_bound() <= expiry_hours * 3600
    &&& expiry_hours * 3600 <= i64::MAX - timestamp_bound()
}

/// Whether a token lifetime meets `generate_jwt`'s requirement.
pub fn expiry_fits_hours(expiry_hours: i64) -> (b: bool)
    ensures
        b == expiry_fits(expiry_hours),
{
    let secs: i128 = (expiry_hours as i128) * 3600;
    (i64::MIN as i128) + 10_000_000_000_000 <= secs && secs <= (i64::MAX as i128) - 10_000_000_000_000
}

/// Signs a session token for a user at time `now`: issued at `now`,
/// expiring `expiry_hours` later.
pub fn issue_token_at(
    user_id: &str,
    username: &str,
    secret: &str,
    expiry_hours: i64,
    now: i64,
) -> (r: Result<String, AppError>)
    requires
        i64::MIN <= expiry_hours * 3600 <= i64::MAX,
        i64::MIN <= now + expiry_hours * 3600 <= i64::MAX,
    ensures
        r is Ok,
        r matches Ok(t) ==> t@ == hs256_token(
            user_id@,
            username@,
            now + expiry_hours * 3600,
            now as int,
            secret@,
        ),
{
    let exp = now + expiry_hours * 3600;
    match encode_claims(user_id, username, exp, now, secret) {
        Ok(t) => Ok(t),
        Err(e) => {
            let text = e.to_string();
            let msg = concat("Failed to generate token: ", text.as_str());
            proof {
                reveal_strlit("Failed to generate token: ");
                assert(msg@.take(26) =~= "Failed to generate token: "@);
            }
            Err(AppError::Internal(msg))
        },
    }
}

/// The token issued at `now` for a user, expiring `expiry_hours` later.
pub open spec fn token_at(
    user_id: Seq<char>,
    username: Seq<char>,
    secret: Seq<char>,
    expiry_hours: int,
    now: int,
) -> Seq<char> {
    hs256_token(user_id, username, now + expiry_hours * 3600, now, secret)
}

/// Signs a session token issued now (by the wall clock).
pub fn generate_jwt(user_id: &str, username: &str, secret: &str, expiry_hours: i64) -> (r: Result<String, AppError>)
    requires
        expiry_fits(expiry_hours),
    ensures
        r is Ok,
        r matches Ok(t) ==> exists|now: int|
            -timestamp_bound() <= now <= timestamp_bound() && t@ == #[trigger] token_at(
                user_id@,
                username@,
                secret@,
                expiry_hours as int,
                now,
            ),
{
    let now = unix_now();
    let r = issue_token_at(user_id, username, secret, expiry_hours, now);
    proof {
        if r is Ok {
            assert(r->Ok_0@ == token_at(user_id@, username@, secret@, expiry_hours as int, now as int));
        }
    }
    r
}

/// A stored account as the login query returns it: id, user name and
/// password hash.
pub struct UserRow {
    pub id: String,
    pub username: String,
    pub password_hash: String,
}

/// The text of the error every failed login gets, whatever failed.
pub open spec fn invalid_login_text() -> Seq<char> {
    "Invalid username or password"@
}

/// Whether a login succeeds: the account exists and bcrypt accepts the
/// password against its stored hash.
pub open spec fn login_ok(row: Option<UserRow>, password: Seq<char>) -> bool {
    match row {
        Some(u) => bcrypt_check(password, u.password_hash@) == Some(true),
        None => false,
    }
}

/// Checks a login: the account's id and user name when the account exists
/// and the password matches its hash; `Unauthorized` with the same text
/// when the account is unknown or the password is wrong; `Internal` when
/// the stored hash cannot be read.
pub fn authenticate(row: Option<UserRow>, password: &str) -> (r: Result<(String, String), AppError>)
    ensures
        r is Ok <==> login_ok(row, password@),
        match row {
            None => r matches Err(AppError::Unauthorized(m)) && m@ == invalid_login_text(),
            Some(u) => match bcrypt_check(password@, u.password_hash@) {
                Some(true) => r matches Ok((id, name)) && id@ == u.id@ && name@ == u.username@,
                Some(false) => r matches Err(AppError::Unauthorized(m)) && m@
                    == invalid_login_text(),
                None => r matches Err(AppError::Internal(m)) && m@.take(27)
                    == "Failed to verify password: "@,
            },
        },
{
    match row {
        None => Err(AppError::Unauthorized(String::from_str("Invalid username or password"))),
        Some(u) => match bcrypt_verify(password, u.password_hash.as_str()) {
            Ok(true) => Ok((u.id, u.username)),
            Ok(false) => Err(
                AppError::Unauthorized(String::from_str("Invalid username or password")),
            ),
            Err(e) => {
                let text = e.to_string();
                let msg = concat("Failed to verify password: ", text.as_str());
                proof {
                    reveal_strlit("Failed to verify password: ");
                    assert(msg@.take(27) =~= "Failed to verify password: "@);
                }
                Err(AppError::Internal(msg))
            },
        },
    }
}

/// A password set at registration is accepted at login: the hash that
/// `new_account` stores for a password (one bcrypt accepts that password
/// against) lets `authenticate` succeed with that password.
pub proof fn law_registered_password_logs_in(account: NewAccount, username: String, password: Seq<char>)
    requires
        bcrypt_check(password, account.password_hash@) == Some(true),
    ensures
        login_ok(
            Some((UserRow { id: account.user_id, username, password_hash: account.password_hash })),
            password,
        ),
{
}

}
