//! The instance itself: its runtime settings, the password gate in front of it, its
//! invitations and the roles its administrators hand out.

use vstd::prelude::*;
use crate::auth::{RegistrationPolicy, parse_policy_spec, utf8_len};
use crate::config::{Config, opt_chars};
use crate::crypto::{argon2_verifies, hash_password, is_random_token, random_token, verify_password};
use crate::error::{AppError, is_bad_request, is_forbidden, is_not_found, is_unauthorized};
use crate::invites::{code_of, random_code};
use crate::text::str_eq;

verus! {

/// Longest validity of an instance invitation, in seconds (90 days).
pub const MAX_INSTANCE_INVITE_AGE_SECS: i64 = 7_776_000;

/// Settings of the running instance, loaded at bootstrap.
pub struct InstanceRuntime {
    pub instance_id: i64,
    pub name: String,
    pub description: Option<String>,
    pub version: String,
    pub registration_policy: RegistrationPolicy,
    pub gate_enabled: bool,
    /// Argon2 hash of the instance password, when there is a gate.
    pub gate_hash: Option<String>,
}

impl InstanceRuntime {
    /// The runtime of an instance already on record, whose gate is on exactly when a
    /// password hash is stored.
    pub fn from_stored(
        instance_id: i64,
        name: String,
        description: Option<String>,
        version: String,
        registration_policy: &str,
        gate_hash: Option<String>,
    ) -> (rt: InstanceRuntime)
        ensures
            rt.instance_id == instance_id,
            rt.name@ == name@,
            opt_chars(rt.description) == opt_chars(description),
            rt.version@ == version@,
            rt.registration_policy == parse_policy_spec(registration_policy@),
            rt.gate_enabled == gate_hash is Some,
            opt_chars(rt.gate_hash) == opt_chars(gate_hash),
    {
        let gate_enabled = gate_hash.is_some();
        InstanceRuntime {
            instance_id,
            name,
            description,
            version,
            registration_policy: RegistrationPolicy::parse(registration_policy),
            gate_enabled,
            gate_hash,
        }
    }

    /// The runtime of a new instance made from the configuration, with its fresh token
    /// signing secret: the instance password, when there is one, is kept only as an
    /// Argon2 hash that verifies it. Fails, with Argon2's message, only on an instance
    /// password longer than Argon2 takes (0xFFFF_FFFF bytes).
    pub fn bootstrap(instance_id: i64, cfg: &Config) -> (r: Result<(InstanceRuntime, String), String>)
        ensures
            match r {
                Ok((rt, secret)) => {
                    &&& rt.instance_id == instance_id
                    &&& rt.name@ == cfg.instance_name@
                    &&& opt_chars(rt.description) == opt_chars(cfg.instance_description)
                    &&& rt.version@ == cfg.version@
                    &&& rt.registration_policy == parse_policy_spec(cfg.registration_policy@)
                    &&& rt.gate_enabled == cfg.instance_password is Some
                    &&& rt.gate_enabled == rt.gate_hash is Some
                    &&& (cfg.instance_password matches Some(p) ==> gate_accepts(
                        opt_chars(rt.gate_hash),
                        p@,
                    ))
                    &&& is_random_token(secret@)
                },
                Err(_) => cfg.instance_password matches Some(p) && utf8_len(p@) > 0xFFFF_FFFF,
            },
    {
        let secret = random_token();
        let gate_hash = match &cfg.instance_password {
            Some(p) => match hash_password(p.as_str()) {
                Ok(h) => Some(h),
                Err(e) => return Err(e),
            },
            None => None,
        };
        let gate_enabled = gate_hash.is_some();
        let rt = InstanceRuntime {
            instance_id,
            name: cfg.instance_name.clone(),
            description: cfg.instance_description.clone(),
            version: cfg.version.clone(),
            registration_policy: RegistrationPolicy::parse(cfg.registration_policy.as_str()),
            gate_enabled,
            gate_hash,
        };
        Ok((rt, secret))
    }
}

/// Whether an instance gate keyed by the password hash `gate_hash` opens for `password`.
pub open spec fn gate_accepts(gate_hash: Option<Seq<char>>, password: Seq<char>) -> bool {
    match gate_hash {
        Some(h) => argon2_verifies(password, h),
        None => false,
    }
}

/// Checks an instance password sent to its gate: refused when the instance has no
/// gate, or when Argon2 does not accept the password against the stored hash.
pub fn gate_password(gate_hash: Option<&str>, password: &str) -> (r: Result<(), AppError>)
    ensures
        r is Ok <==> gate_accepts(
            match gate_hash {
                Some(h) => Some(h@),
                None => None,
            },
            password@,
        ),
        match gate_hash {
            None => r matches Err(e) && is_bad_request(
                e,
                "cette instance n'exige pas de mot de passe d'instance"@,
            ),
            Some(h) => if argon2_verifies(password@, h@) {
                r is Ok
            } else {
                r matches Err(e) && is_unauthorized(e, "mot de passe d'instance incorrect"@)
            },
        },
{
    match gate_hash {
        None => Err(AppError::bad_request("cette instance n'exige pas de mot de passe d'instance")),
        Some(h) => if verify_password(password, h) {
            Ok(())
        } else {
            Err(AppError::unauthorized("mot de passe d'instance incorrect"))
        },
    }
}

/// A fresh instance invitation code: at most ten letters and digits of a random token.
pub fn gen_code() -> (r: String)
    ensures
        exists|t: Seq<char>| is_random_token(t) && r@ == #[trigger] code_of(t, 10),
{
    random_code(10)
}

/// Expiry of an instance invitation valid `max_age` seconds from `now` (milliseconds):
/// none when `max_age` is not positive; refused beyond 90 days.
pub fn invite_expiry(now: i64, max_age: i64) -> (r: Result<Option<i64>, AppError>)
    requires
        now <= i64::MAX - MAX_INSTANCE_INVITE_AGE_SECS * 1000,
    ensures
        max_age > MAX_INSTANCE_INVITE_AGE_SECS ==> (r matches Err(e) && is_bad_request(
            e,
            "durée de validité trop longue (max 90 jours)"@,
        )),
        max_age <= MAX_INSTANCE_INVITE_AGE_SECS ==> r == Ok::<Option<i64>, AppError>(
            if max_age > 0 {
                Some((now + max_age * 1000) as i64)
            } else {
                None
            },
        ),
{
    if max_age > MAX_INSTANCE_INVITE_AGE_SECS {
        return Err(AppError::bad_request("durée de validité trop longue (max 90 jours)"));
    }
    if max_age > 0 {
        Ok(Some(now + max_age * 1000))
    } else {
        Ok(None)
    }
}

/// The instance roles an owner may hand out.
pub open spec fn assignable_role(role: Seq<char>) -> bool {
    role == "admin"@ || role == "moderator"@ || role == "user"@
}

/// Checks a change of instance role: the role must be one that can be handed out, the
/// owner's own role never changes, and the target must exist.
pub fn check_set_role(role: &str, target_role: &str, target_exists: bool) -> (r: Result<(), AppError>)
    ensures
        !assignable_role(role@) ==> (r matches Err(e) && is_bad_request(
            e,
            "rôle invalide (admin | moderator | user)"@,
        )),
        assignable_role(role@) && target_role@ == "owner"@ ==> (r matches Err(e) && is_forbidden(
            e,
            "le rôle du propriétaire ne peut pas être modifié"@,
        )),
        assignable_role(role@) && target_role@ != "owner"@ && !target_exists ==> (r matches Err(e)
            && is_not_found(e, "utilisateur introuvable"@)),
        assignable_role(role@) && target_role@ != "owner"@ && target_exists ==> r is Ok,
{
    if !(str_eq(role, "admin") || str_eq(role, "moderator") || str_eq(role, "user")) {
        return Err(AppError::bad_request("rôle invalide (admin | moderator | user)"));
    }
    if str_eq(target_role, "owner") {
        return Err(AppError::forbidden("le rôle du propriétaire ne peut pas être modifié"));
    }
    if !target_exists {
        return Err(AppError::not_found("utilisateur introuvable"));
    }
    Ok(())
}

/// Checks a suspension: the owner of the instance cannot be suspended.
pub fn check_suspend_target(target_role: &str) -> (r: Result<(), AppError>)
    ensures
        target_role@ == "owner"@ ==> (r matches Err(e) && is_forbidden(
            e,
            "le propriétaire de l'instance ne peut pas être suspendu"@,
        )),
        target_role@ != "owner"@ ==> r is Ok,
{
    if str_eq(target_role, "owner") {
        Err(AppError::forbidden("le propriétaire de l'instance ne peut pas être suspendu"))
    } else {
        Ok(())
    }
}

} // verus!
