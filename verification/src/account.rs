//! Credentials of an account: logging in, proving the current password again before a
//! sensitive change, hashing a new one, and the refresh tokens of sessions.

use vstd::prelude::*;
use vstd::string::StringSliceAdditionalSpecFns;
use crate::auth::{REFRESH_TTL_MS, validate_password_strength, password_problem, upgrade_material_ok, validate_upgrade_material};
use crate::crypto::{argon2_verifies, hash_password, hex_spec, is_random_token, random_token, sha256, sha256_hex, verify_password};
use crate::error::{AppError, is_bad_request, is_error, is_forbidden, is_unauthorized, STATUS_INTERNAL, CODE_INTERNAL};
use crate::numbers::{decimal_string_i64, signed_decimal_text};
use crate::text::{byte_len, concat, lowercase, to_lowercase, trim, trim_spec};

verus! {

/// What the store holds to check a login.
pub struct LoginRecord {
    pub id: i64,
    /// Argon2 PHC string of the password.
    pub password_hash: String,
    pub suspended: bool,
    pub deleted: bool,
}

/// Outcome of a login attempt with `password` against `record`.
pub open spec fn authenticate_spec(record: Option<LoginRecord>, password: Seq<char>, r: Result<i64, AppError>) -> bool {
    match record {
        None => r matches Err(e) && is_unauthorized(e, "identifiants invalides"@),
        Some(rec) => if rec.deleted || !argon2_verifies(password, rec.password_hash@) {
            r matches Err(e) && is_unauthorized(e, "identifiants invalides"@)
        } else if rec.suspended {
            r matches Err(e) && is_forbidden(e, "compte suspendu"@)
        } else {
            r == Ok::<i64, AppError>(rec.id)
        },
    }
}

/// Logs in: an unknown account, a deleted one and a wrong password all get the same
/// answer, so none of them is revealed; a suspended account is refused only after a
/// correct password. Gives the account id.
pub fn authenticate(record: Option<LoginRecord>, password: &str) -> (r: Result<i64, AppError>)
    ensures
        authenticate_spec(record, password@, r),
{
    match record {
        None => Err(AppError::unauthorized("identifiants invalides")),
        Some(rec) => {
            if rec.deleted {
                return Err(AppError::unauthorized("identifiants invalides"));
            }
            if !verify_password(password, rec.password_hash.as_str()) {
                return Err(AppError::unauthorized("identifiants invalides"));
            }
            if rec.suspended {
                return Err(AppError::forbidden("compte suspendu"));
            }
            Ok(rec.id)
        },
    }
}

/// An account whose stored hash verifies a password (as every hash from
/// [`new_password_hash`] does) logs in with that password, unless deleted or suspended.
pub proof fn law_stored_password_logs_in(rec: LoginRecord, password: Seq<char>, r: Result<i64, AppError>)
    requires
        !rec.deleted,
        !rec.suspended,
        argon2_verifies(password, rec.password_hash@),
        authenticate_spec(Some(rec), password, r),
    ensures
        r == Ok::<i64, AppError>(rec.id),
{
}

/// Checks the current password again before a sensitive change; refused with
/// `message` when Argon2 does not accept it.
pub fn reauthenticate(password_hash: &str, password: &str, message: &str) -> (r: Result<(), AppError>)
    ensures
        argon2_verifies(password@, password_hash@) ==> r is Ok,
        !argon2_verifies(password@, password_hash@) ==> (r matches Err(e) && is_unauthorized(e, message@)),
{
    if verify_password(password, password_hash) {
        Ok(())
    } else {
        Err(AppError::unauthorized(message))
    }
}

/// Hashes a new password; it succeeds unless the password is longer than Argon2 takes
/// (0xFFFF_FFFF bytes), which is an internal error carrying Argon2's message. The hash
/// verifies the password.
pub fn new_password_hash(password: &str) -> (r: Result<String, AppError>)
    ensures
        r is Ok <==> password.spec_bytes().len() <= 0xFFFF_FFFF,
        r matches Ok(h) ==> argon2_verifies(password@, h@),
        r matches Err(e) ==> e.status == STATUS_INTERNAL && e.code == CODE_INTERNAL,
{
    match hash_password(password) {
        Ok(h) => Ok(h),
        Err(e) => Err(AppError::internal(e.as_str())),
    }
}

/// Largest wrapped private key accepted, in bytes.
pub const MAX_WRAPPED_KEY_BYTES: usize = 8192;

/// Checks a password change and hashes the new password. The current password must be
/// accepted; outside the zero-knowledge scheme (`2`) the new one must pass the password
/// policy; a re-wrapped private key, when sent, must be 1 to 8192 bytes.
pub fn change_password_hash(
    password_hash: &str,
    scheme: i64,
    current_password: &str,
    new_password: &str,
    priv_wrapped: Option<&str>,
) -> (r: Result<String, AppError>)
    ensures
        !argon2_verifies(current_password@, password_hash@) ==> (r matches Err(e) && is_unauthorized(
            e,
            "mot de passe actuel invalide"@,
        )),
        r is Ok ==> argon2_verifies(current_password@, password_hash@),
        r is Ok && scheme != 2 ==> password_problem(new_password@, ""@) is None,
        r matches Ok(h) ==> argon2_verifies(new_password@, h@),
        r is Ok ==> (priv_wrapped matches Some(b) ==> 0 < b.spec_bytes().len() <= 8192),
        (argon2_verifies(current_password@, password_hash@) && scheme != 2 && password_problem(
            new_password@,
            ""@,
        ) is Some) ==> (r matches Err(e) && is_bad_request(
            e,
            password_problem(new_password@, ""@)->Some_0,
        )),
        (argon2_verifies(current_password@, password_hash@) && (scheme == 2 || password_problem(
            new_password@,
            ""@,
        ) is None) && new_password.spec_bytes().len() <= 0xFFFF_FFFF) ==> (r is Ok <==> (
        priv_wrapped matches Some(b) ==> 0 < b.spec_bytes().len() <= 8192)),
        (argon2_verifies(current_password@, password_hash@) && (scheme == 2 || password_problem(
            new_password@,
            ""@,
        ) is None) && new_password.spec_bytes().len() <= 0xFFFF_FFFF && (priv_wrapped matches Some(b)
            && !(0 < b.spec_bytes().len() <= 8192))) ==> (r matches Err(e) && is_bad_request(
            e,
            "clé emballée invalide"@,
        )),
{
    if !verify_password(current_password, password_hash) {
        return Err(AppError::unauthorized("mot de passe actuel invalide"));
    }
    if scheme != 2 {
        match validate_password_strength(new_password, "") {
            Ok(()) => {},
            Err(e) => return Err(e),
        }
    }
    let new_hash = match new_password_hash(new_password) {
        Ok(h) => h,
        Err(e) => return Err(e),
    };
    match priv_wrapped {
        Some(blob) => {
            let n = byte_len(blob);
            if n == 0 || n > MAX_WRAPPED_KEY_BYTES {
                return Err(AppError::bad_request("clé emballée invalide"));
            }
        },
        None => {},
    }
    Ok(new_hash)
}

/// Checks the move of a legacy account to the zero-knowledge scheme and hashes the new
/// authentication secret: refused when already moved, when the current password is not
/// accepted, or when the key material is out of bounds.
pub fn upgrade_encryption_hash(
    password_hash: &str,
    scheme: i64,
    current_password: &str,
    public_key: &str,
    priv_wrapped: &str,
    auth_secret: &str,
    kdf_salt: &str,
) -> (r: Result<String, AppError>)
    ensures
        scheme == 2 ==> (r matches Err(e) && is_bad_request(e, "chiffrement déjà migré"@)),
        scheme != 2 && !argon2_verifies(current_password@, password_hash@) ==> (r matches Err(e)
            && is_unauthorized(e, "mot de passe invalide"@)),
        scheme != 2 && argon2_verifies(current_password@, password_hash@) && !upgrade_material_ok(
            public_key@,
            priv_wrapped@,
            auth_secret@,
            kdf_salt@,
        ) ==> (r matches Err(e) && is_bad_request(e, "matériel de chiffrement invalide"@)),
        r is Ok ==> scheme != 2 && argon2_verifies(current_password@, password_hash@)
            && upgrade_material_ok(public_key@, priv_wrapped@, auth_secret@, kdf_salt@),
        r matches Ok(h) ==> argon2_verifies(auth_secret@, h@),
        (scheme != 2 && argon2_verifies(current_password@, password_hash@) && upgrade_material_ok(
            public_key@,
            priv_wrapped@,
            auth_secret@,
            kdf_salt@,
        ) && auth_secret.spec_bytes().len() <= 0xFFFF_FFFF) ==> r is Ok,
{
    if scheme == 2 {
        return Err(AppError::bad_request("chiffrement déjà migré"));
    }
    if !verify_password(current_password, password_hash) {
        return Err(AppError::unauthorized("mot de passe invalide"));
    }
    match validate_upgrade_material(public_key, priv_wrapped, auth_secret, kdf_salt) {
        Ok(()) => {},
        Err(e) => return Err(e),
    }
    new_password_hash(auth_secret)
}

/// An account that still owns guilds cannot be deleted.
pub fn check_account_deletion(owned_guilds: i64) -> (r: Result<(), AppError>)
    ensures
        owned_guilds > 0 ==> (r matches Err(e) && is_bad_request(
            e,
            "supprimez ou transférez vos guildes avant de supprimer votre compte"@,
        )),
        owned_guilds <= 0 ==> r is Ok,
{
    if owned_guilds > 0 {
        Err(AppError::bad_request("supprimez ou transférez vos guildes avant de supprimer votre compte"))
    } else {
        Ok(())
    }
}

/// The user name and e-mail a deleted account keeps, so that its messages stay
/// attributed: `deleted_<id>` and `deleted_<id>@deleted.invalid`.
pub fn deleted_identity(uid: i64) -> (r: (String, String))
    ensures
        r.0@ == "deleted_"@ + signed_decimal_text(uid as int),
        r.1@ == "deleted_"@ + signed_decimal_text(uid as int) + "@deleted.invalid"@,
{
    let id = decimal_string_i64(uid);
    let name = concat("deleted_", id.as_str());
    let mail = concat(name.as_str(), "@deleted.invalid");
    (name, mail)
}

/// The key under which a session stores its refresh token: the lower-case hexadecimal
/// SHA-256 of the token's UTF-8 bytes.
pub open spec fn refresh_key(token: Seq<char>) -> Seq<char> {
    hex_spec(sha256(vstd::utf8::encode_utf8(token)))
}

/// A refresh token handed to a client, with what its session stores.
pub struct IssuedRefresh {
    pub token: String,
    /// Key stored with the session; the token itself is never stored.
    pub token_hash: String,
    pub expires_at: i64,
}

/// A fresh refresh token for a session created at `created` (milliseconds); it expires
/// 30 days later.
pub fn issue_refresh(created: i64) -> (r: IssuedRefresh)
    requires
        created <= i64::MAX - REFRESH_TTL_MS,
    ensures
        is_random_token(r.token@),
        r.token_hash@ == refresh_key(r.token@),
        r.expires_at == created + REFRESH_TTL_MS,
{
    let token = random_token();
    let token_hash = sha256_hex(token.as_str());
    IssuedRefresh { token, token_hash, expires_at: created + REFRESH_TTL_MS }
}

/// The key under which to look up the session of a presented refresh token.
pub fn refresh_lookup_key(token: &str) -> (r: String)
    ensures
        r@ == refresh_key(token@),
{
    sha256_hex(token)
}

/// The session that issued a refresh token is the one found again when that token is
/// presented: both sides compute the same key.
pub proof fn law_refresh_token_finds_its_session(issued: IssuedRefresh, presented: Seq<char>, key: Seq<char>)
    requires
        issued.token_hash@ == refresh_key(issued.token@),
        presented == issued.token@,
        key == refresh_key(presented),
    ensures
        key == issued.token_hash@,
{
}

/// Salt of a login that no account answers to: the SHA-256 of the server secret and the
/// login, in hexadecimal, looking like a real salt yet impossible to compute without the
/// secret.
pub open spec fn decoy_salt(secret: Seq<char>, login: Seq<char>) -> Seq<char> {
    hex_spec(sha256(vstd::utf8::encode_utf8(secret + "|prelogin|"@ + login)))
}

/// The login as looked up before a login: trimmed, in lower case.
pub fn prelogin_login(raw: &str) -> (r: String)
    ensures
        r@ == lowercase(trim_spec(raw@)),
{
    let t = trim(raw);
    to_lowercase(t.as_str())
}

/// Key-derivation parameters given before a login: those of the account found (scheme
/// and salt), else the zero-knowledge scheme with a decoy salt, so that the answer does
/// not reveal whether the account exists.
pub fn prelogin_answer(stored: Option<(i64, Option<String>)>, secret: &str, login: &str) -> (r: (u8, String))
    ensures
        match stored {
            None => r.0 == 2 && r.1@ == decoy_salt(secret@, login@),
            Some((scheme, salt)) => {
                &&& r.0 == scheme as u8
                &&& r.1@ == (match salt {
                    Some(s) => s@,
                    None => decoy_salt(secret@, login@),
                })
            },
        },
{
    match stored {
        None => (2, decoy(secret, login)),
        Some((scheme, salt)) => {
            let s = match salt {
                Some(s) => s,
                None => decoy(secret, login),
            };
            (scheme as u8, s)
        },
    }
}

fn decoy(secret: &str, login: &str) -> (r: String)
    ensures
        r@ == decoy_salt(secret@, login@),
{
    let a = concat(secret, "|prelogin|");
    let b = concat(a.as_str(), login);
    sha256_hex(b.as_str())
}

} // verus!
