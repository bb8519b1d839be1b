//! Members of a guild and their moderation: nicknames, timeouts, bans, kicks, leaving,
//! transferring ownership, and the member list.

use vstd::prelude::*;
use crate::error::{AppError, is_bad_request, is_forbidden, is_not_found};
use crate::numbers::{parse_signed, parse_signed_spec};
use crate::perms::{CHANGE_NICKNAME, MANAGE_NICKNAMES};
use crate::search::MemberQuery;
use crate::text::{byte_len, char_count, concat, lowercase, to_lowercase, trim, trim_spec};
use crate::auth::utf8_len;

verus! {

/// Longest nickname, in characters.
pub const MAX_NICK_CHARS: usize = 32;

/// The permission a nickname change takes: `CHANGE_NICKNAME` for one's own,
/// `MANAGE_NICKNAMES` for another member's.
pub fn nick_permission(target: i64, me: i64) -> (p: u64)
    ensures
        p == (if target == me { CHANGE_NICKNAME } else { MANAGE_NICKNAMES }),
{
    if target == me {
        CHANGE_NICKNAME
    } else {
        MANAGE_NICKNAMES
    }
}

/// The nickname to store: trimmed, at most 32 characters; a blank one clears it.
pub fn check_nick(nick: &str) -> (r: Result<Option<String>, AppError>)
    ensures
        trim_spec(nick@).len() > 32 ==> (r matches Err(e) && is_bad_request(e, "pseudo trop long (max 32)"@)),
        trim_spec(nick@).len() == 0 ==> r == Ok::<Option<String>, AppError>(None),
        0 < trim_spec(nick@).len() <= 32 ==> (r matches Ok(Some(t)) && t@ == trim_spec(nick@)),
{
    let t = trim(nick);
    let n = char_count(t.as_str());
    if n > MAX_NICK_CHARS {
        return Err(AppError::bad_request("pseudo trop long (max 32)"));
    }
    if n == 0 {
        Ok(None)
    } else {
        Ok(Some(t))
    }
}

/// A member must exist to be updated.
pub fn check_member_exists(is_member: bool) -> (r: Result<(), AppError>)
    ensures
        is_member ==> r is Ok,
        !is_member ==> (r matches Err(e) && is_not_found(e, "membre introuvable"@)),
{
    if is_member {
        Ok(())
    } else {
        Err(AppError::not_found("membre introuvable"))
    }
}

/// Messages of a banned user younger than this cut-off (milliseconds) are deleted with
/// the ban; none when `delete_message_seconds` is not positive. The product saturates.
pub fn ban_message_cutoff(now: i64, delete_message_seconds: i64) -> (r: Option<i64>)
    requires
        now >= 0,
    ensures
        delete_message_seconds <= 0 ==> r is None,
        delete_message_seconds > 0 ==> r == Some(
            (now - (if delete_message_seconds * 1000 > i64::MAX {
                i64::MAX as int
            } else {
                delete_message_seconds * 1000
            })) as i64,
        ),
{
    if delete_message_seconds > 0 {
        let span: i64 = if delete_message_seconds > i64::MAX / 1000 {
            i64::MAX
        } else {
            delete_message_seconds * 1000
        };
        Some(now - span)
    } else {
        None
    }
}

/// An unban must remove an existing ban.
pub fn check_unbanned(removed: u64) -> (r: Result<(), AppError>)
    ensures
        removed > 0 ==> r is Ok,
        removed == 0 ==> (r matches Err(e) && is_not_found(e, "bannissement introuvable"@)),
{
    if removed == 0 {
        Err(AppError::not_found("bannissement introuvable"))
    } else {
        Ok(())
    }
}

/// The owner cannot leave their guild (they delete it instead).
pub fn check_leave(owner: Option<i64>, me: i64) -> (r: Result<(), AppError>)
    ensures
        owner is None ==> (r matches Err(e) && is_not_found(e, "guilde introuvable"@)),
        owner == Some(me) ==> (r matches Err(e) && is_forbidden(
            e,
            "le propriétaire ne peut pas quitter sa guilde (supprimez-la d'abord)"@,
        )),
        owner is Some && owner != Some(me) ==> r is Ok,
{
    match owner {
        None => Err(AppError::not_found("guilde introuvable")),
        Some(o) => if o == me {
            Err(AppError::forbidden("le propriétaire ne peut pas quitter sa guilde (supprimez-la d'abord)"))
        } else {
            Ok(())
        },
    }
}

/// Checks a transfer of ownership by `me` to `target`: only the owner transfers, not to
/// themselves, and only to a member.
pub fn check_transfer(owner: Option<i64>, me: i64, target: i64, target_is_member: bool) -> (r: Result<(), AppError>)
    ensures
        owner is None ==> (r matches Err(e) && is_not_found(e, "guilde introuvable"@)),
        owner is Some && owner != Some(me) ==> (r matches Err(e) && is_forbidden(
            e,
            "seul le propriétaire peut transférer la guilde"@,
        )),
        owner == Some(me) && target == me ==> (r matches Err(e) && is_bad_request(e, "vous êtes déjà le propriétaire"@)),
        owner == Some(me) && target != me && !target_is_member ==> (r matches Err(e) && is_bad_request(
            e,
            "le nouveau propriétaire doit être membre de la guilde"@,
        )),
        owner == Some(me) && target != me && target_is_member ==> r is Ok,
{
    let o = match owner {
        None => return Err(AppError::not_found("guilde introuvable")),
        Some(o) => o,
    };
    if o != me {
        return Err(AppError::forbidden("seul le propriétaire peut transférer la guilde"));
    }
    if target == me {
        return Err(AppError::bad_request("vous êtes déjà le propriétaire"));
    }
    if !target_is_member {
        return Err(AppError::bad_request("le nouveau propriétaire doit être membre de la guilde"));
    }
    Ok(())
}

/// How to list the members of a guild.
pub struct MemberListPlan {
    /// Page size, `1..=1000` (1000 when absent).
    pub limit: i64,
    /// Cursor: only users with a larger id.
    pub after: Option<i64>,
    /// `LIKE` pattern of the name search, in lower case.
    pub like: Option<String>,
    /// Sorted by user id (paging or search) rather than by arrival.
    pub by_user_id: bool,
}

/// The search pattern of a member query: the trimmed query in lower case between `%`
/// signs, unless it is empty.
pub open spec fn like_pattern(query: Seq<char>) -> Seq<char> {
    seq!['%'] + lowercase(trim_spec(query)) + seq!['%']
}

/// Plans a member listing from its query.
pub fn member_list_plan(q: &MemberQuery) -> (p: MemberListPlan)
    ensures
        p.limit == (match q.limit {
            Some(l) => if l < 1 { 1 } else if l > 1000 { 1000 } else { l },
            None => 1000,
        }),
        p.after == (match q.after {
            Some(a) => parse_signed_spec(a@),
            None => None,
        }),
        match q.query {
            Some(s) => if utf8_len(like_pattern(s@)) > 2 {
                p.like matches Some(l) && l@ == like_pattern(s@)
            } else {
                p.like is None
            },
            None => p.like is None,
        },
        p.by_user_id == (p.after is Some || p.like is Some),
{
    let limit = crate::search::clamp_limit(q.limit, 1000, 1000);
    let after = match &q.after {
        Some(a) => parse_signed(a.as_str()),
        None => None,
    };
    let like = match &q.query {
        Some(s) => {
            let t = trim(s.as_str());
            let low = to_lowercase(t.as_str());
            let a = concat("%", low.as_str());
            let pat = concat(a.as_str(), "%");
            proof {
                reveal_strlit("%");
                assert(pat@ =~= like_pattern(s@));
            }
            if byte_len(pat.as_str()) > 2 {
                Some(pat)
            } else {
                None
            }
        },
        None => None,
    };
    let by_user_id = after.is_some() || like.is_some();
    MemberListPlan { limit, after, like, by_user_id }
}

} // verus!
