//! Account rules: registration policy, password strength, credentials checks and the
//! limits on end-to-end encryption material.

use vstd::prelude::*;
use vstd::string::StringSliceAdditionalSpecFns;
use crate::error::{AppError, is_bad_request, is_forbidden, is_unauthorized};
use crate::text::{
    byte_len, char_count, contains_spec, lowercase, str_contains, str_eq, to_lowercase, trim,
    trim_spec,
};

verus! {

/// Lifetime of an access token, in seconds.
pub const ACCESS_TTL: u64 = 600;
/// Lifetime of a refresh token, in milliseconds (30 days).
pub const REFRESH_TTL_MS: i64 = 2_592_000_000;
/// Largest number of live sessions kept per account.
pub const MAX_SESSIONS_PER_USER: i64 = 10;

/// Who may create an account on the instance.
#[derive(Clone, Copy, Debug, PartialEq, Eq)]
pub enum RegistrationPolicy {
    Open,
    Invite,
    Closed,
}

/// Reading of a stored policy: `invite`, `closed`, anything else is open.
pub open spec fn parse_policy_spec(s: Seq<char>) -> RegistrationPolicy {
    if s == "invite"@ {
        RegistrationPolicy::Invite
    } else if s == "closed"@ {
        RegistrationPolicy::Closed
    } else {
        RegistrationPolicy::Open
    }
}

impl RegistrationPolicy {
    /// Reads a stored policy (`open`, `invite` or `closed`; open when unknown).
    pub fn parse(s: &str) -> (r: RegistrationPolicy)
        ensures
            r == parse_policy_spec(s@),
    {
        if str_eq(s, "invite") {
            RegistrationPolicy::Invite
        } else if str_eq(s, "closed") {
            RegistrationPolicy::Closed
        } else {
            RegistrationPolicy::Open
        }
    }
}

/// Outcome of [`check_gate`].
pub open spec fn check_gate_spec(gate_enabled: bool, gate_token_valid: bool, r: Result<
    (),
    AppError,
>) -> bool {
    if gate_enabled && !gate_token_valid {
        r is Err && is_unauthorized(r->Err_0, "jeton de gate d'instance requis ou invalide"@)
    } else {
        r is Ok
    }
}

/// The instance gate: with a gate password set, a valid gate token is required.
pub fn check_gate(gate_enabled: bool, gate_token_valid: bool) -> (r: Result<(), AppError>)
    ensures
        check_gate_spec(gate_enabled, gate_token_valid, r),
{
    if gate_enabled && !gate_token_valid {
        return Err(AppError::unauthorized("jeton de gate d'instance requis ou invalide"));
    }
    Ok(())
}

/// Outcome of [`check_registration_policy`]: the trimmed instance invite code to claim,
/// if any.
pub open spec fn check_registration_policy_spec(
    is_first: bool,
    policy: RegistrationPolicy,
    invite_code: Option<Seq<char>>,
    r: Result<Option<String>, AppError>,
) -> bool {
    if is_first {
        r is Ok && r->Ok_0 is None
    } else {
        match policy {
            RegistrationPolicy::Closed => r is Err && is_forbidden(
                r->Err_0,
                "les inscriptions sont fermées sur cette instance"@,
            ),
            RegistrationPolicy::Invite => {
                let code = trim_spec(
                    match invite_code {
                        Some(c) => c,
                        None => Seq::empty(),
                    },
                );
                if code.len() == 0 {
                    r is Err && is_forbidden(r->Err_0, "code d'invitation d'instance requis"@)
                } else {
                    r is Ok && r->Ok_0 is Some && r->Ok_0->0@ == code
                }
            },
            RegistrationPolicy::Open => r is Ok && r->Ok_0 is None,
        }
    }
}

/// Registration policy: the very first account (the future owner) bypasses it; a closed
/// instance refuses; an invite-only instance needs a non-blank instance invite code.
pub fn check_registration_policy(
    is_first: bool,
    policy: RegistrationPolicy,
    invite_code: Option<&str>,
) -> (r: Result<Option<String>, AppError>)
    ensures
        check_registration_policy_spec(
            is_first,
            policy,
            match invite_code {
                Some(c) => Some(c@),
                None => None,
            },
            r,
        ),
{
    if is_first {
        return Ok(None);
    }
    match policy {
        RegistrationPolicy::Closed => Err(
            AppError::forbidden("les inscriptions sont fermées sur cette instance"),
        ),
        RegistrationPolicy::Invite => {
            let code = match invite_code {
                Some(c) => trim(c),
                None => {
                    let e = trim("");
                    proof {
                        reveal_strlit("");
                    }
                    e
                },
            };
            if char_count(code.as_str()) == 0 {
                return Err(AppError::forbidden("code d'invitation d'instance requis"));
            }
            Ok(Some(code))
        },
        RegistrationPolicy::Open => Ok(None),
    }
}

/// Outcome of [`check_instance_invite`].
pub open spec fn check_instance_invite_spec(
    found: bool,
    expires_at: Option<i64>,
    now: i64,
    r: Result<(), AppError>,
) -> bool {
    if !found {
        r is Err && is_forbidden(r->Err_0, "invitation d'instance invalide"@)
    } else if expires_at is Some && expires_at->0 < now {
        r is Err && is_forbidden(r->Err_0, "invitation d'instance expirée"@)
    } else {
        r is Ok
    }
}

/// An instance invite must exist and not be expired at `now`.
pub fn check_instance_invite(found: bool, expires_at: Option<i64>, now: i64) -> (r: Result<
    (),
    AppError,
>)
    ensures
        check_instance_invite_spec(found, expires_at, now, r),
{
    if !found {
        return Err(AppError::forbidden("invitation d'instance invalide"));
    }
    match expires_at {
        Some(exp) => if exp < now {
            return Err(AppError::forbidden("invitation d'instance expirée"));
        },
        None => {},
    }
    Ok(())
}

/// Passwords refused as too common (compared in lower case).
pub open spec fn common_passwords() -> Seq<Seq<char>> {
    seq![
        "password"@,
        "motdepasse"@,
        "12345678"@,
        "123456789"@,
        "1234567890"@,
        "azerty123"@,
        "qwerty123"@,
        "11111111"@,
        "00000000"@,
        "iloveyou"@,
        "admin123"@,
        "letmein1"@,
        "password1"@,
        "azertyuiop"@,
        "qwertyuiop"@,
        "motdepasse1"@,
    ]
}

/// Byte length of the UTF-8 encoding of `s`.
pub open spec fn utf8_len(s: Seq<char>) -> int {
    vstd::utf8::encode_utf8(s).len() as int
}

/// What is wrong with `password` for an account named `username`, if anything.
pub open spec fn password_problem(password: Seq<char>, username: Seq<char>) -> Option<Seq<char>> {
    let lower = lowercase(password);
    if password.len() < 8 {
        Some("mot de passe trop court (8 caractères minimum)"@)
    } else if common_passwords().contains(lower) {
        Some("mot de passe trop courant — choisis-en un plus robuste"@)
    } else if utf8_len(username) >= 3 && contains_spec(lower, lowercase(username)) {
        Some("le mot de passe ne doit pas contenir ton pseudo"@)
    } else {
        None
    }
}

/// A `Result` that fails with a bad request exactly when `problem` names one.
pub open spec fn bad_request_if(problem: Option<Seq<char>>, r: Result<(), AppError>) -> bool {
    match problem {
        Some(m) => r is Err && is_bad_request(r->Err_0, m),
        None => r is Ok,
    }
}

/// Password policy: at least 8 characters, not one of the common passwords, and not
/// containing the user name (of 3 bytes or more), all compared in lower case.
pub fn validate_password_strength(password: &str, username: &str) -> (r: Result<(), AppError>)
    ensures
        bad_request_if(password_problem(password@, username@), r),
{
    if char_count(password) < 8 {
        return Err(AppError::bad_request("mot de passe trop court (8 caractères minimum)"));
    }
    let lower = to_lowercase(password);
    let common: [&str; 16] = [
        "password",
        "motdepasse",
        "12345678",
        "123456789",
        "1234567890",
        "azerty123",
        "qwerty123",
        "11111111",
        "00000000",
        "iloveyou",
        "admin123",
        "letmein1",
        "password1",
        "azertyuiop",
        "qwertyuiop",
        "motdepasse1",
    ];
    let ghost list = common_passwords();
    assert(common@.map_values(|s: &str| s@) =~= list);
    let mut i: usize = 0;
    while i < 16
        invariant
            0 <= i <= 16,
            common@.map_values(|s: &str| s@) == list,
            lower@ == lowercase(password@),
            list == common_passwords(),
            password@.len() >= 8,
            forall|j: int| 0 <= j < i ==> list[j] != lower@,
        decreases 16 - i,
    {
        assert(common@.map_values(|s: &str| s@)[i as int] == common@[i as int]@);
        if str_eq(lower.as_str(), common[i]) {
            assert(list.contains(lower@)) by {
                assert(list[i as int] == lower@);
            }
            return Err(
                AppError::bad_request("mot de passe trop courant — choisis-en un plus robuste"),
            );
        }
        i = i + 1;
    }
    assert(!list.contains(lower@));
    if byte_len(username) >= 3 {
        let lu = to_lowercase(username);
        if str_contains(lower.as_str(), lu.as_str()) {
            return Err(AppError::bad_request("le mot de passe ne doit pas contenir ton pseudo"));
        }
    }
    Ok(())
}

/// Key material of an end-to-end encrypted account: a public key of 1 to 1024 bytes and a
/// wrapped private key of 1 to 8192 bytes.
pub open spec fn key_material_ok(public_key: Seq<char>, priv_wrapped: Seq<char>) -> bool {
    1 <= utf8_len(public_key) <= 1024 && 1 <= utf8_len(priv_wrapped) <= 8192
}

/// An e-mail address must at least hold an `@`.
pub open spec fn email_ok(email: Seq<char>) -> bool {
    email.contains('@')
}

/// What [`validate_registration`] answers for the given fields.
pub open spec fn registration_outcome(
    username: Seq<char>,
    password: Seq<char>,
    email: Seq<char>,
    public_key: Option<Seq<char>>,
    priv_wrapped: Option<Seq<char>>,
) -> Result<(Seq<char>, Seq<char>, bool), Seq<char>> {
    let user = lowercase(trim_spec(username));
    let is_v2 = public_key is Some && priv_wrapped is Some;
    let mail = lowercase(trim_spec(email));
    if utf8_len(user) < 2 || utf8_len(user) > 32 {
        Err("pseudo invalide (2 à 32 caractères)"@)
    } else if !is_v2 && password_problem(password, user) is Some {
        Err(password_problem(password, user)->0)
    } else if is_v2 && !key_material_ok(public_key->0, priv_wrapped->0) {
        Err("matériel de chiffrement invalide"@)
    } else if !email_ok(mail) {
        Err("e-mail invalide"@)
    } else {
        Ok((user, mail, is_v2))
    }
}

/// View of an optional string slice.
pub open spec fn opt_str(s: Option<&str>) -> Option<Seq<char>> {
    match s {
        Some(t) => Some(t@),
        None => None,
    }
}

/// Whether `s` holds `c`.
pub fn has_char(s: &str, c: char) -> (r: bool)
    ensures
        r == s@.contains(c),
{
    let v = crate::text::chars_of(s);
    let mut i: usize = 0;
    while i < v.len()
        invariant
            0 <= i <= v.len(),
            v@ == s@,
            forall|j: int| 0 <= j < i ==> v@[j] != c,
        decreases v.len() - i,
    {
        if v[i] == c {
            assert(s@[i as int] == c);
            return true;
        }
        i = i + 1;
    }
    false
}

/// Checks the fields of a registration; answers the normalized user name and e-mail
/// (trimmed, lower case) and whether the account uses end-to-end key escrow (v2, where
/// the password is a derived secret and the strength policy is the client's).
pub fn validate_registration(
    username: &str,
    password: &str,
    email: &str,
    public_key: Option<&str>,
    priv_wrapped: Option<&str>,
) -> (r: Result<(String, String, bool), AppError>)
    ensures
        match registration_outcome(
            username@,
            password@,
            email@,
            opt_str(public_key),
            opt_str(priv_wrapped),
        ) {
            Ok((u, m, v2)) => r is Ok && r->Ok_0.0@ == u && r->Ok_0.1@ == m && r->Ok_0.2 == v2,
            Err(msg) => r is Err && is_bad_request(r->Err_0, msg),
        },
{
    let t = trim(username);
    let user = to_lowercase(t.as_str());
    let ulen = byte_len(user.as_str());
    if ulen < 2 || ulen > 32 {
        return Err(AppError::bad_request("pseudo invalide (2 à 32 caractères)"));
    }
    let is_v2 = public_key.is_some() && priv_wrapped.is_some();
    if !is_v2 {
        match validate_password_strength(password, user.as_str()) {
            Err(e) => return Err(e),
            Ok(()) => {},
        }
    } else {
        let pk = public_key.unwrap();
        let blob = priv_wrapped.unwrap();
        let pl = byte_len(pk);
        let bl = byte_len(blob);
        if pl == 0 || pl > 1024 || bl == 0 || bl > 8192 {
            return Err(AppError::bad_request("matériel de chiffrement invalide"));
        }
    }
    let te = trim(email);
    let mail = to_lowercase(te.as_str());
    if !has_char(mail.as_str(), '@') {
        return Err(AppError::bad_request("e-mail invalide"));
    }
    Ok((user, mail, is_v2))
}

/// Outcome of [`validate_new_email`]: the trimmed lower-cased address, holding an `@` and
/// at most 254 bytes.
pub fn validate_new_email(email: &str) -> (r: Result<String, AppError>)
    ensures
        ({
            let m = lowercase(trim_spec(email@));
            if !email_ok(m) || utf8_len(m) > 254 {
                r is Err && is_bad_request(r->Err_0, "e-mail invalide"@)
            } else {
                r is Ok && r->Ok_0@ == m
            }
        }),
{
    let te = trim(email);
    let mail = to_lowercase(te.as_str());
    if !has_char(mail.as_str(), '@') || byte_len(mail.as_str()) > 254 {
        return Err(AppError::bad_request("e-mail invalide"));
    }
    Ok(mail)
}

/// Limits on the material of an upgrade to end-to-end key escrow: public key 1 to 1024
/// bytes, wrapped key 1 to 8192, derived secret 1 to 1024, salt 1 to 128.
pub open spec fn upgrade_material_ok(
    public_key: Seq<char>,
    priv_wrapped: Seq<char>,
    auth_secret: Seq<char>,
    kdf_salt: Seq<char>,
) -> bool {
    &&& key_material_ok(public_key, priv_wrapped)
    &&& 1 <= utf8_len(auth_secret) <= 1024
    &&& 1 <= utf8_len(kdf_salt) <= 128
}

/// Checks the material of an encryption upgrade.
pub fn validate_upgrade_material(
    public_key: &str,
    priv_wrapped: &str,
    auth_secret: &str,
    kdf_salt: &str,
) -> (r: Result<(), AppError>)
    ensures
        upgrade_material_ok(public_key@, priv_wrapped@, auth_secret@, kdf_salt@) <==> r is Ok,
        r is Err ==> is_bad_request(r->Err_0, "matériel de chiffrement invalide"@),
{
    let a = byte_len(public_key);
    let b = byte_len(priv_wrapped);
    let c = byte_len(auth_secret);
    let d = byte_len(kdf_salt);
    if a == 0 || a > 1024 || b == 0 || b > 8192 || c == 0 || c > 1024 || d == 0 || d > 128 {
        return Err(AppError::bad_request("matériel de chiffrement invalide"));
    }
    Ok(())
}

/// Which of the login failures applies, in the order they are checked.
pub open spec fn login_outcome(found: bool, deleted: bool, password_ok: bool, suspended: bool, r: Result<(), AppError>) -> bool {
    if !found || deleted || !password_ok {
        r is Err && is_unauthorized(r->Err_0, "identifiants invalides"@)
    } else if suspended {
        r is Err && is_forbidden(r->Err_0, "compte suspendu"@)
    } else {
        r is Ok
    }
}

/// Login decision once the account is looked up and the password checked: an unknown,
/// deleted or wrongly authenticated account all get the same answer; a suspended one is
/// refused after a correct password.
pub fn check_login(found: bool, deleted: bool, password_ok: bool, suspended: bool) -> (r: Result<
    (),
    AppError,
>)
    ensures
        login_outcome(found, deleted, password_ok, suspended, r),
{
    if !found || deleted || !password_ok {
        return Err(AppError::unauthorized("identifiants invalides"));
    }
    if suspended {
        return Err(AppError::forbidden("compte suspendu"));
    }
    Ok(())
}

/// What to do with a presented refresh token.
#[derive(Clone, Copy, Debug, PartialEq, Eq)]
pub enum RefreshDecision {
    /// Unknown token.
    Invalid,
    /// The account is suspended: revoke all its sessions and refuse.
    RevokeAll,
    /// The session has expired.
    Expired,
    /// Rotate: delete this session and issue a new pair.
    Rotate,
}

/// Refresh decision from the session row found for the token (if any).
pub fn refresh_decision(found: bool, suspended: bool, expires_at: i64, now: i64) -> (r:
    RefreshDecision)
    ensures
        r == (if !found {
            RefreshDecision::Invalid
        } else if suspended {
            RefreshDecision::RevokeAll
        } else if expires_at < now {
            RefreshDecision::Expired
        } else {
            RefreshDecision::Rotate
        }),
{
    if !found {
        RefreshDecision::Invalid
    } else if suspended {
        RefreshDecision::RevokeAll
    } else if expires_at < now {
        RefreshDecision::Expired
    } else {
        RefreshDecision::Rotate
    }
}

} // verus!
