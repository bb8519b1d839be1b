//! Relationships between two users: friend requests, friendships and blocks, seen from
//! both sides, and personal notes.

use vstd::prelude::*;
use crate::error::{AppError, is_bad_request, is_forbidden, is_not_found};
use crate::text::{char_count, str_eq};

verus! {

/// What one user holds about another.
#[derive(Clone, Copy, Debug, PartialEq, Eq, Structural)]
pub enum Rel {
    NoRelation,
    Friend,
    /// The other sent a friend request.
    Incoming,
    /// This user sent a friend request.
    Outgoing,
    Blocked,
}

impl Rel {
    /// Reading of a stored relationship type.
    pub fn parse(s: &str) -> (r: Rel)
        ensures
            r == (if s@ == "friend"@ {
                Rel::Friend
            } else if s@ == "incoming"@ {
                Rel::Incoming
            } else if s@ == "outgoing"@ {
                Rel::Outgoing
            } else if s@ == "blocked"@ {
                Rel::Blocked
            } else {
                Rel::NoRelation
            }),
    {
        if str_eq(s, "friend") {
            Rel::Friend
        } else if str_eq(s, "incoming") {
            Rel::Incoming
        } else if str_eq(s, "outgoing") {
            Rel::Outgoing
        } else if str_eq(s, "blocked") {
            Rel::Blocked
        } else {
            Rel::NoRelation
        }
    }
}

/// The relationship between two users: `mine` is what the acting user holds about the
/// other, `theirs` what the other holds about the acting user.
#[derive(Clone, Copy, Debug, PartialEq, Eq, Structural)]
pub struct Pair {
    pub mine: Rel,
    pub theirs: Rel,
}

/// The pair seen from the other user.
pub open spec fn swapped(p: Pair) -> Pair {
    Pair { mine: p.theirs, theirs: p.mine }
}

/// The pairs the operations below can produce from no relation: nothing, a friendship,
/// a pending request either way, or a block either way.
pub open spec fn consistent(p: Pair) -> bool {
    ||| p.mine == Rel::NoRelation && p.theirs == Rel::NoRelation
    ||| p.mine == Rel::Friend && p.theirs == Rel::Friend
    ||| p.mine == Rel::Outgoing && p.theirs == Rel::Incoming
    ||| p.mine == Rel::Incoming && p.theirs == Rel::Outgoing
    ||| p.mine == Rel::Blocked && p.theirs == Rel::NoRelation
    ||| p.mine == Rel::NoRelation && p.theirs == Rel::Blocked
}

/// What a friend request did.
#[derive(Clone, Copy, Debug, PartialEq, Eq, Structural)]
pub enum FriendOutcome {
    /// Already friends: nothing changes.
    AlreadyFriends,
    /// The other had asked: both are now friends.
    Accepted,
    /// A request is now pending from the acting user.
    Requested,
}

/// The pair after a friend request that was not refused.
pub open spec fn after_friend_request(p: Pair) -> Pair {
    if p.mine == Rel::Friend {
        p
    } else if p.mine == Rel::Incoming {
        Pair { mine: Rel::Friend, theirs: Rel::Friend }
    } else {
        Pair { mine: Rel::Outgoing, theirs: Rel::Incoming }
    }
}

/// Sends or accepts a friend request from `me` to `target`: refused towards oneself, an
/// unknown user, a user who blocked `me` or whom `me` blocked; accepted when the target
/// had asked; otherwise a request is made. Answers the new pair and what happened.
pub fn friend_request(me: i64, target: i64, target_exists: bool, pair: Pair) -> (r: Result<(Pair, FriendOutcome), AppError>)
    ensures
        me == target ==> (r matches Err(e) && is_bad_request(e, "impossible avec soi-même"@)),
        me != target && !target_exists ==> (r matches Err(e) && is_not_found(e, "utilisateur introuvable"@)),
        me != target && target_exists && pair.theirs == Rel::Blocked ==> (r matches Err(e) && is_forbidden(
            e,
            "cet utilisateur vous a bloqué"@,
        )),
        me != target && target_exists && pair.theirs != Rel::Blocked && pair.mine == Rel::Blocked ==> (r matches Err(
            e,
        ) && is_forbidden(e, "vous avez bloqué cet utilisateur"@)),
        me != target && target_exists && pair.theirs != Rel::Blocked && pair.mine != Rel::Blocked ==> (r matches Ok(
            (np, outcome),
        ) && np == after_friend_request(pair) && outcome == (if pair.mine == Rel::Friend {
            FriendOutcome::AlreadyFriends
        } else if pair.mine == Rel::Incoming {
            FriendOutcome::Accepted
        } else {
            FriendOutcome::Requested
        })),
{
    if me == target {
        return Err(AppError::bad_request("impossible avec soi-même"));
    }
    if !target_exists {
        return Err(AppError::not_found("utilisateur introuvable"));
    }
    if pair.theirs == Rel::Blocked {
        return Err(AppError::forbidden("cet utilisateur vous a bloqué"));
    }
    if pair.mine == Rel::Blocked {
        return Err(AppError::forbidden("vous avez bloqué cet utilisateur"));
    }
    match pair.mine {
        Rel::Friend => Ok((pair, FriendOutcome::AlreadyFriends)),
        Rel::Incoming => Ok((Pair { mine: Rel::Friend, theirs: Rel::Friend }, FriendOutcome::Accepted)),
        _ => Ok((Pair { mine: Rel::Outgoing, theirs: Rel::Incoming }, FriendOutcome::Requested)),
    }
}

/// The pair after `me` blocks the other: `me` holds a block, the other's side is erased
/// (a block is never revealed to its target).
pub open spec fn after_block(p: Pair) -> Pair {
    Pair { mine: Rel::Blocked, theirs: Rel::NoRelation }
}

/// Blocks the user named by a lookup: refused towards oneself.
pub fn block(me: i64, target: i64, pair: Pair) -> (r: Result<Pair, AppError>)
    ensures
        me == target ==> (r matches Err(e) && is_bad_request(e, "impossible avec soi-même"@)),
        me != target ==> r == Ok::<Pair, AppError>(after_block(pair)),
{
    if me == target {
        return Err(AppError::bad_request("impossible avec soi-même"));
    }
    Ok(Pair { mine: Rel::Blocked, theirs: Rel::NoRelation })
}

/// The pair after a removal: nothing on either side.
pub open spec fn after_removal(p: Pair) -> Pair {
    Pair { mine: Rel::NoRelation, theirs: Rel::NoRelation }
}

/// Removes the relationship both ways.
pub fn remove(pair: Pair) -> (r: Pair)
    ensures
        r == after_removal(pair),
{
    Pair { mine: Rel::NoRelation, theirs: Rel::NoRelation }
}

/// Every operation, done by either user, keeps a pair among the consistent ones.
pub proof fn law_relationships_stay_consistent(p: Pair)
    requires
        consistent(p),
    ensures
        p.mine != Rel::Blocked && p.theirs != Rel::Blocked ==> consistent(after_friend_request(p)),
        p.mine != Rel::Blocked && p.theirs != Rel::Blocked ==> consistent(
            swapped(after_friend_request(swapped(p))),
        ),
        consistent(after_block(p)),
        consistent(swapped(after_block(swapped(p)))),
        consistent(after_removal(p)),
{
}

/// Two users who each send a friend request, from no relation, end up friends.
pub proof fn law_mutual_requests_make_friends()
    ensures
        ({
            let first = after_friend_request(Pair { mine: Rel::NoRelation, theirs: Rel::NoRelation });
            let second = swapped(after_friend_request(swapped(first)));
            second == Pair { mine: Rel::Friend, theirs: Rel::Friend }
        }),
{
}

/// Longest personal note, in characters.
pub const MAX_NOTE_CHARS: usize = 256;

/// A personal note holds at most 256 characters.
pub fn check_note(note: &str) -> (r: Result<(), AppError>)
    ensures
        note@.len() <= 256 ==> r is Ok,
        note@.len() > 256 ==> (r matches Err(e) && is_bad_request(e, "note trop longue (max 256)"@)),
{
    if char_count(note) > MAX_NOTE_CHARS {
        Err(AppError::bad_request("note trop longue (max 256)"))
    } else {
        Ok(())
    }
}

} // verus!
