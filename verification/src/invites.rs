//! Invitation codes: the first ASCII letters and digits of a random token.

use vstd::prelude::*;
use crate::auth::utf8_len;
use crate::error::{AppError, is_bad_request, is_forbidden, is_not_found};
use crate::text::{
    byte_len, char_count, chars_of, is_ascii_alphanumeric, is_ascii_alphanumeric_spec, lowercase,
    string_from_chars, to_lowercase, trim, trim_spec,
};
use crate::validate::{all_chars_in, chars_all_in};
use crate::crypto::{random_token, is_random_token};

verus! {

/// `s` cut to its first `n` elements when it is longer.
pub open spec fn at_most(s: Seq<char>, n: int) -> Seq<char> {
    if s.len() <= n {
        s
    } else {
        s.take(n)
    }
}

/// The first `n` ASCII letters and digits of `token`, in order (fewer when it has fewer).
pub open spec fn code_of(token: Seq<char>, n: int) -> Seq<char> {
    at_most(token.filter(|c: char| is_ascii_alphanumeric_spec(c)), n)
}

/// The first `len` ASCII letters and digits of `token`.
pub fn code_from_token(token: &str, len: usize) -> (r: String)
    ensures
        r@ == code_of(token@, len as int),
{
    let v = chars_of(token);
    let mut out: Vec<char> = Vec::new();
    let mut i: usize = 0;
    while i < v.len()
        invariant
            0 <= i <= v@.len(),
            v@ == token@,
            out@ == code_of(v@.take(i as int), len as int),
        decreases v.len() - i,
    {
        let c = v[i];
        proof {
            reveal(Seq::filter);
            let t = v@.take(i + 1);
            assert(t.drop_last() =~= v@.take(i as int));
            assert(t.last() == c);
        }
        let ghost f = v@.take(i as int).filter(|c: char| is_ascii_alphanumeric_spec(c));
        if is_ascii_alphanumeric(c) {
            if out.len() < len {
                out.push(c);
                assert(out@ =~= at_most(f.push(c), len as int));
            } else {
                assert(at_most(f.push(c), len as int) =~= at_most(f, len as int));
            }
        }
        i = i + 1;
    }
    assert(v@.take(v@.len() as int) =~= v@);
    string_from_chars(&out)
}

/// A fresh invitation code of at most `len` characters, taken from a random token.
pub fn random_code(len: usize) -> (r: String)
    ensures
        exists|t: Seq<char>| is_random_token(t) && r@ == #[trigger] code_of(t, len as int),
{
    let token = random_token();
    let r = code_from_token(token.as_str(), len);
    assert(is_random_token(token@) && r@ == code_of(token@, len as int));
    r
}

/// Longest validity of a guild invitation, in seconds (30 days).
pub const MAX_INVITE_AGE_SECS: i64 = 2_592_000;

/// Expiry of a guild invitation valid `max_age` seconds from `now` (milliseconds): none
/// when `max_age` is not positive (a permanent invitation); refused beyond 30 days.
pub fn invite_expiry(now: i64, max_age: i64) -> (r: Result<Option<i64>, AppError>)
    requires
        now <= i64::MAX - MAX_INVITE_AGE_SECS * 1000,
    ensures
        max_age > MAX_INVITE_AGE_SECS ==> (r matches Err(e) && is_bad_request(
            e,
            "durée de validité trop longue (max 30 jours)"@,
        )),
        max_age <= MAX_INVITE_AGE_SECS ==> r == Ok::<Option<i64>, AppError>(
            if max_age > 0 {
                Some((now + max_age * 1000) as i64)
            } else {
                None
            },
        ),
{
    if max_age > MAX_INVITE_AGE_SECS {
        return Err(AppError::bad_request("durée de validité trop longue (max 30 jours)"));
    }
    if max_age > 0 {
        Ok(Some(now + max_age * 1000))
    } else {
        Ok(None)
    }
}

/// The custom code asked for, trimmed, when one is sent and not blank (it then takes
/// `MANAGE_GUILD`).
pub fn requested_code(code: Option<&str>) -> (r: Option<String>)
    ensures
        match code {
            Some(c) => if trim_spec(c@).len() > 0 {
                r matches Some(t) && t@ == trim_spec(c@)
            } else {
                r is None
            },
            None => r is None,
        },
{
    match code {
        Some(c) => {
            let t = trim(c);
            if char_count(t.as_str()) > 0 {
                Some(t)
            } else {
                None
            }
        },
        None => None,
    }
}

/// A custom code, in lower case, is 2 to 32 bytes of ASCII letters, digits and `-`.
pub open spec fn custom_code_ok(c: Seq<char>) -> bool {
    2 <= utf8_len(c) <= 32 && all_chars_in(c, seq!['-'])
}

/// Checks a custom invitation code (its uniqueness is checked against the other
/// invitations); answers it in lower case.
pub fn check_custom_code(code: &str) -> (r: Result<String, AppError>)
    ensures
        custom_code_ok(lowercase(code@)) ==> (r matches Ok(c) && c@ == lowercase(code@)),
        !custom_code_ok(lowercase(code@)) ==> (r matches Err(e) && is_bad_request(
            e,
            "code invalide (2 à 32 caractères : a-z, 0-9, -)"@,
        )),
{
    let c = to_lowercase(code);
    let len = byte_len(c.as_str());
    let v = chars_of(c.as_str());
    let extra = vec!['-'];
    assert(extra@ =~= seq!['-']);
    if len < 2 || len > 32 || !chars_all_in(&v, &extra) {
        return Err(AppError::bad_request("code invalide (2 à 32 caractères : a-z, 0-9, -)"));
    }
    Ok(c)
}

/// What the store holds of an invitation when one is presented.
#[derive(Clone, Copy, Debug)]
pub struct InviteUse {
    pub guild_id: i64,
    pub expires_at: Option<i64>,
    pub uses: i32,
    /// `0` for no limit.
    pub max_uses: i32,
}

/// The guild an invitation code leads to, and whether it is a vanity code. An ordinary
/// invitation must not have expired nor reached its number of uses; otherwise the code
/// may be the permanent vanity code of a guild (`vanity_guild`).
pub fn resolve_invite(invite: Option<InviteUse>, vanity_guild: Option<i64>, now: i64) -> (r: Result<(i64, bool), AppError>)
    ensures
        match invite {
            Some(inv) => if inv.expires_at matches Some(exp) && exp < now {
                r matches Err(e) && is_not_found(e, "invitation expirée"@)
            } else if inv.max_uses > 0 && inv.uses >= inv.max_uses {
                r matches Err(e) && is_forbidden(e, "invitation épuisée"@)
            } else {
                r == Ok::<(i64, bool), AppError>((inv.guild_id, false))
            },
            None => match vanity_guild {
                Some(g) => r == Ok::<(i64, bool), AppError>((g, true)),
                None => r matches Err(e) && is_not_found(e, "invitation invalide"@),
            },
        },
{
    match invite {
        Some(inv) => {
            match inv.expires_at {
                Some(exp) => if exp < now {
                    return Err(AppError::not_found("invitation expirée"));
                },
                None => {},
            }
            if inv.max_uses > 0 && inv.uses >= inv.max_uses {
                return Err(AppError::forbidden("invitation épuisée"));
            }
            Ok((inv.guild_id, false))
        },
        None => match vanity_guild {
            Some(g) => Ok((g, true)),
            None => Err(AppError::not_found("invitation invalide")),
        },
    }
}

/// A limited invitation accepted by [`resolve_invite`] still has a use left, so counting
/// the new member keeps its uses within its limit.
pub proof fn law_invite_uses_stay_within_limit(inv: InviteUse, now: i64)
    requires
        !(inv.expires_at matches Some(exp) && exp < now),
        !(inv.max_uses > 0 && inv.uses >= inv.max_uses),
        0 <= inv.uses,
    ensures
        inv.max_uses > 0 ==> inv.uses + 1 <= inv.max_uses,
{
}

/// A banned user cannot join.
pub fn check_not_banned(banned: bool) -> (r: Result<(), AppError>)
    ensures
        banned ==> (r matches Err(e) && is_forbidden(e, "vous êtes banni de cette guilde"@)),
        !banned ==> r is Ok,
{
    if banned {
        Err(AppError::forbidden("vous êtes banni de cette guilde"))
    } else {
        Ok(())
    }
}

/// Whether a join counts one use of the invitation: only a new membership through an
/// ordinary invitation (a vanity code is never used up).
pub fn counts_a_use(newly_joined: bool, is_vanity: bool) -> (r: bool)
    ensures
        r == (newly_joined && !is_vanity),
{
    newly_joined && !is_vanity
}

/// The preview of an expired invitation is refused.
pub fn check_preview(expires_at: Option<i64>, now: i64) -> (r: Result<(), AppError>)
    ensures
        (expires_at matches Some(exp) && exp < now) ==> (r matches Err(e) && is_not_found(
            e,
            "invitation expirée"@,
        )),
        !(expires_at matches Some(exp) && exp < now) ==> r is Ok,
{
    match expires_at {
        Some(exp) => if exp < now {
            return Err(AppError::not_found("invitation expirée"));
        },
        None => {},
    }
    Ok(())
}

/// A private guild shows a non-member only its name in an invitation preview (no icon,
/// no member count).
pub fn preview_limited(private_profile: bool, is_member: bool) -> (r: bool)
    ensures
        r == (private_profile && !is_member),
{
    private_profile && !is_member
}

/// Revoking someone else's invitation takes `MANAGE_GUILD`; its creator needs nothing.
pub fn revoke_needs_manage_guild(inviter_id: i64, user_id: i64) -> (r: bool)
    ensures
        r == (inviter_id != user_id),
{
    inviter_id != user_id
}

} // verus!
