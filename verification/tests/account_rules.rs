use ozone_api::account::{
    authenticate, change_password_hash, check_account_deletion, deleted_identity, issue_refresh,
    new_password_hash, prelogin_answer, prelogin_login, reauthenticate, refresh_lookup_key,
    upgrade_encryption_hash, LoginRecord,
};
use ozone_api::auth::{
    check_gate, check_instance_invite, check_login, check_registration_policy, refresh_decision,
    validate_new_email, validate_password_strength, validate_registration,
    validate_upgrade_material, RefreshDecision, RegistrationPolicy, REFRESH_TTL_MS,
};
use ozone_api::config::Config;
use ozone_api::crypto::{hash_password, hex_lower, random_token, sha256_hex, verify_password};
use ozone_api::error::AppError;
use ozone_api::extract::{bearer_token, first_field_of, subject_id, ClientIp};
use ozone_api::instance::{
    check_set_role, check_suspend_target, gate_password, gen_code as instance_code,
    invite_expiry as instance_invite_expiry, InstanceRuntime,
};

fn err_of<T>(r: Result<T, AppError>) -> AppError {
    match r {
        Err(e) => e,
        Ok(_) => panic!("an error was expected"),
    }
}

#[test]
fn sha256_of_known_inputs() {
    assert_eq!(
        sha256_hex(""),
        "e3b0c44298fc1c149afbf4c8996fb92427ae41e4649b934ca495991b7852b855"
    );
    assert_eq!(
        sha256_hex("abc"),
        "ba7816bf8f01cfea414140de5dae2223b00361a396177a9cb410ff61f20015ad"
    );
    assert_eq!(hex_lower(&[0x00, 0x0f, 0xa5, 0xff]), "000fa5ff");
}

#[test]
fn random_tokens_are_url_safe_base64() {
    let a = random_token();
    let b = random_token();
    assert_eq!(a.len(), 43);
    assert!(a.chars().all(|c| c.is_ascii_alphanumeric() || c == '-' || c == '_'));
    assert_ne!(a, b);
}

#[test]
fn stored_password_logs_in() {
    let hash = new_password_hash("correct horse").ok().unwrap();
    assert!(hash.starts_with("$argon2id$"));
    let rec = LoginRecord { id: 42, password_hash: hash.clone(), suspended: false, deleted: false };
    assert_eq!(authenticate(Some(rec), "correct horse").ok(), Some(42));
    let rec = LoginRecord { id: 42, password_hash: hash, suspended: false, deleted: false };
    assert_eq!(err_of(authenticate(Some(rec), "nope")).message, "identifiants invalides");
}

#[test]
fn hashing_succeeds_with_a_fresh_b64_salt() {
    let h = hash_password("").ok().unwrap();
    assert!(verify_password("", &h));
    let parts: Vec<&str> = h.split('$').collect();
    assert_eq!(parts[1], "argon2id");
    assert_eq!(parts[4].len(), 22);
    assert!(parts[4].chars().all(|c| c.is_ascii_alphanumeric() || c == '+' || c == '/'));
    assert!(new_password_hash("é ü").is_ok());
}

#[test]
fn suspended_and_deleted_accounts() {
    let hash = hash_password("correct horse").ok().unwrap();
    let rec = LoginRecord { id: 42, password_hash: hash.clone(), suspended: true, deleted: false };
    let e = err_of(authenticate(Some(rec), "correct horse"));
    assert_eq!((e.status, e.message.as_str()), (403, "compte suspendu"));
    let rec = LoginRecord { id: 42, password_hash: hash, suspended: false, deleted: true };
    assert_eq!(err_of(authenticate(Some(rec), "correct horse")).message, "identifiants invalides");
    assert_eq!(err_of(authenticate(None, "x")).status, 401);
}

#[test]
fn password_verification() {
    let hash = hash_password("correct horse").ok().unwrap();
    assert!(verify_password("correct horse", &hash));
    assert!(!verify_password("wrong horse", &hash));
    assert!(!verify_password("correct horse", "not a hash"));
}

#[test]
fn reauthentication() {
    let hash = hash_password("current").ok().unwrap();
    assert!(reauthenticate(&hash, "current", "mot de passe invalide").is_ok());
    assert_eq!(err_of(reauthenticate(&hash, "x", "mot de passe invalide")).message, "mot de passe invalide");
}

#[test]
fn password_change_checks_current_password() {
    let hash = hash_password("old password 1").ok().unwrap();
    let e = err_of(change_password_hash(&hash, 1, "bad", "N3w-passphrase", None));
    assert_eq!(e.message, "mot de passe actuel invalide");
    let e = err_of(change_password_hash(&hash, 1, "old password 1", "short", None));
    assert_eq!(e.message, "mot de passe trop court (8 caractères minimum)");
}

#[test]
fn password_change_checks_wrapped_key() {
    let hash = hash_password("old password 1").ok().unwrap();
    let e = err_of(change_password_hash(&hash, 1, "old password 1", "N3w-passphrase", Some("")));
    assert_eq!(e.message, "clé emballée invalide");
}

#[test]
fn password_change_in_zero_knowledge_scheme() {
    let hash = hash_password("old password 1").ok().unwrap();
    let h = change_password_hash(&hash, 2, "old password 1", "short", Some("blob")).ok().unwrap();
    assert!(verify_password("short", &h));
}

#[test]
fn encryption_upgrade_checks() {
    let hash = hash_password("old password 1").ok().unwrap();
    let e = err_of(upgrade_encryption_hash(&hash, 2, "old password 1", "k", "w", "s", "salt"));
    assert_eq!(e.message, "chiffrement déjà migré");
    let e = err_of(upgrade_encryption_hash(&hash, 1, "old password 1", "", "w", "s", "salt"));
    assert_eq!(e.message, "matériel de chiffrement invalide");
}

#[test]
fn password_policy() {
    assert!(validate_password_strength("long enough pw", "bob").is_ok());
    assert_eq!(
        err_of(validate_password_strength("ééééé", "bob")).message,
        "mot de passe trop court (8 caractères minimum)"
    );
    assert!(validate_password_strength("éééééééé", "bob").is_ok());
    assert_eq!(
        err_of(validate_password_strength("short", "bob")).message,
        "mot de passe trop court (8 caractères minimum)"
    );
    assert_eq!(
        err_of(validate_password_strength("PassWord", "bob")).message,
        "mot de passe trop courant — choisis-en un plus robuste"
    );
    assert_eq!(
        err_of(validate_password_strength("xxAliceyy", "alice")).message,
        "le mot de passe ne doit pas contenir ton pseudo"
    );
    assert!(validate_password_strength("xxboyy123", "bo").is_ok());
}

#[test]
fn registration_fields() {
    let (u, m, v2) = validate_registration("  Alice ", "a good passphrase", " A@B.C ", None, None).ok().unwrap();
    assert_eq!((u.as_str(), m.as_str(), v2), ("alice", "a@b.c", false));
    assert_eq!(
        err_of(validate_registration("a", "a good passphrase", "a@b", None, None)).message,
        "pseudo invalide (2 à 32 caractères)"
    );
    assert_eq!(err_of(validate_registration("alice", "a good passphrase", "ab", None, None)).message, "e-mail invalide");
    let (_, _, v2) = validate_registration("alice", "x", "a@b", Some("pk"), Some("wrapped")).ok().unwrap();
    assert!(v2);
    assert_eq!(
        err_of(validate_registration("alice", "x", "a@b", Some(""), Some("wrapped"))).message,
        "matériel de chiffrement invalide"
    );
    assert_eq!(validate_new_email(" X@Y.z ").ok(), Some("x@y.z".to_string()));
    assert!(validate_upgrade_material("k", "w", "s", "salt").is_ok());
}

#[test]
fn registration_policy_and_invites() {
    assert_eq!(check_registration_policy(true, RegistrationPolicy::Closed, None).ok(), Some(None));
    let e = err_of(check_registration_policy(false, RegistrationPolicy::Closed, None));
    assert_eq!(e.message, "les inscriptions sont fermées sur cette instance");
    let e = err_of(check_registration_policy(false, RegistrationPolicy::Invite, Some("  ")));
    assert_eq!(e.message, "code d'invitation d'instance requis");
    assert_eq!(
        check_registration_policy(false, RegistrationPolicy::Invite, Some(" abc ")).ok(),
        Some(Some("abc".to_string()))
    );
    assert_eq!(RegistrationPolicy::parse("invite"), RegistrationPolicy::Invite);
    assert_eq!(RegistrationPolicy::parse("whatever"), RegistrationPolicy::Open);
    assert_eq!(err_of(check_instance_invite(false, None, 5)).message, "invitation d'instance invalide");
    assert_eq!(err_of(check_instance_invite(true, Some(4), 5)).message, "invitation d'instance expirée");
    assert!(check_instance_invite(true, Some(5), 5).is_ok());
    assert!(check_gate(false, false).is_ok());
    assert_eq!(err_of(check_gate(true, false)).message, "jeton de gate d'instance requis ou invalide");
    assert_eq!(err_of(check_login(true, false, true, true)).message, "compte suspendu");
}

#[test]
fn refresh_token_rotation() {
    let issued = issue_refresh(1_000);
    assert_eq!(issued.expires_at, 1_000 + REFRESH_TTL_MS);
    assert_eq!(refresh_lookup_key(&issued.token), issued.token_hash);
    assert_eq!(issued.token_hash, sha256_hex(&issued.token));
    assert_eq!(refresh_decision(false, false, 0, 0), RefreshDecision::Invalid);
    assert_eq!(refresh_decision(true, true, 10, 0), RefreshDecision::RevokeAll);
    assert_eq!(refresh_decision(true, false, 10, 11), RefreshDecision::Expired);
    assert_eq!(refresh_decision(true, false, 10, 10), RefreshDecision::Rotate);
}

#[test]
fn prelogin_hides_unknown_accounts() {
    assert_eq!(prelogin_login("  Bob@Example.COM "), "bob@example.com");
    let (scheme, salt) = prelogin_answer(None, "secret", "bob");
    assert_eq!(scheme, 2);
    assert_eq!(salt, sha256_hex("secret|prelogin|bob"));
    let (scheme, salt) = prelogin_answer(Some((1, Some("real".to_string()))), "secret", "bob");
    assert_eq!((scheme, salt.as_str()), (1, "real"));
    let (_, salt) = prelogin_answer(Some((2, None)), "secret", "bob");
    assert_eq!(salt.len(), 64);
}

#[test]
fn deleted_accounts_are_anonymized() {
    assert_eq!(
        deleted_identity(17),
        ("deleted_17".to_string(), "deleted_17@deleted.invalid".to_string())
    );
    assert_eq!(deleted_identity(-5).0, "deleted_-5");
    assert!(check_account_deletion(0).is_ok());
    assert!(check_account_deletion(2).is_err());
}

#[test]
fn client_address_choice() {
    assert_eq!(ClientIp::resolve(true, Some(" 1.2.3.4 , 5.6.7.8"), Some("9.9.9.9".to_string())).0, "1.2.3.4");
    assert_eq!(ClientIp::resolve(false, Some("1.2.3.4"), Some("9.9.9.9".to_string())).0, "9.9.9.9");
    assert_eq!(ClientIp::resolve(true, Some("  ,x"), Some("9.9.9.9".to_string())).0, "9.9.9.9");
    assert_eq!(ClientIp::resolve(true, None, None).0, "unknown");
    assert_eq!(first_field_of("a/b/c", '/'), "a");
}

#[test]
fn bearer_tokens_and_subjects() {
    assert_eq!(bearer_token(Some("Bearer abc.def")).ok(), Some("abc.def".to_string()));
    assert_eq!(err_of(bearer_token(None)).message, "jeton d'autorisation manquant");
    assert_eq!(err_of(bearer_token(Some("Basic xyz"))).message, "schéma d'autorisation invalide");
    assert_eq!(subject_id("18446744073709551615").ok(), Some(u64::MAX));
    assert_eq!(err_of(subject_id("-1")).message, "sujet de jeton invalide");
}

#[test]
fn configuration_defaults() {
    let c = Config::from_settings(None, None, None, None, None, Some(String::new()), "1.0".to_string());
    assert_eq!(c.bind, "127.0.0.1:8080");
    assert_eq!(c.db_path, "ozone.db");
    assert_eq!(c.instance_name, "Ozone");
    assert_eq!(c.registration_policy, "open");
    assert_eq!(c.instance_password, None);
    let c = Config::from_settings(Some("0.0.0.0:1".to_string()), None, None, None, None, Some("pw".to_string()), "2".to_string());
    assert_eq!(c.bind, "0.0.0.0:1");
    assert_eq!(c.instance_password, Some("pw".to_string()));
}

#[test]
fn bootstrap_password_opens_gate() {
    let cfg = Config::from_settings(None, None, Some("Test".to_string()), None, Some("invite".to_string()), Some("letmein!".to_string()), "1".to_string());
    let (rt, secret) = InstanceRuntime::bootstrap(7, &cfg).ok().unwrap();
    assert_eq!(rt.instance_id, 7);
    assert_eq!(rt.name, "Test");
    assert!(rt.gate_enabled);
    assert_eq!(rt.registration_policy, RegistrationPolicy::Invite);
    assert_eq!(secret.len(), 43);
    let hash = rt.gate_hash.clone().unwrap();
    assert!(gate_password(Some(&hash), "letmein!").is_ok());
    assert_eq!(err_of(gate_password(Some(&hash), "nope")).message, "mot de passe d'instance incorrect");
    assert_eq!(err_of(gate_password(None, "x")).status, 400);
    let stored = InstanceRuntime::from_stored(1, "n".to_string(), None, "v".to_string(), "closed", None);
    assert!(!stored.gate_enabled);
    assert_eq!(stored.registration_policy, RegistrationPolicy::Closed);
}

#[test]
fn instance_administration() {
    let c = instance_code();
    assert!(c.len() <= 10 && c.chars().all(|ch| ch.is_ascii_alphanumeric()));
    assert_eq!(instance_invite_expiry(1_000, 0).ok(), Some(None));
    assert_eq!(instance_invite_expiry(1_000, 60).ok(), Some(Some(61_000)));
    assert!(instance_invite_expiry(0, 7_776_001).is_err());
    assert_eq!(err_of(check_set_role("root", "user", true)).message, "rôle invalide (admin | moderator | user)");
    assert_eq!(err_of(check_set_role("admin", "owner", true)).status, 403);
    assert_eq!(err_of(check_set_role("admin", "user", false)).status, 404);
    assert!(check_set_role("moderator", "user", true).is_ok());
    assert!(check_suspend_target("owner").is_err());
    assert!(check_suspend_target("admin").is_ok());
}
