//! Routing of gateway events: the scope of an event says who may receive it.

use vstd::prelude::*;
use crate::perms::{has, has_spec, VIEW_CHANNEL};

verus! {

/// Who may receive an event.
#[derive(Clone, Copy, Debug, PartialEq, Eq, Structural)]
pub enum EventScope {
    /// The members of a guild.
    Guild(i64),
    /// The members who can see a guild channel.
    Channel { guild_id: i64, channel_id: i64 },
    /// The recipients of a direct or group conversation.
    Dm(i64),
    /// One user.
    User(i64),
}

impl EventScope {
    /// Scope of a channel: a conversation when `guild_id` is `0`, else a guild channel.
    pub fn channel(guild_id: i64, channel_id: i64) -> (s: Self)
        ensures
            s == (if guild_id == 0 {
                EventScope::Dm(channel_id)
            } else {
                EventScope::Channel { guild_id, channel_id }
            }),
    {
        if guild_id == 0 {
            EventScope::Dm(channel_id)
        } else {
            EventScope::Channel { guild_id, channel_id }
        }
    }
}

/// What the store answered about one user and the guild or conversation of a scope.
pub struct ScopeFacts {
    /// The user is a member of the scope's guild.
    pub guild_member: bool,
    /// The user is a recipient of the scope's conversation.
    pub dm_recipient: bool,
    /// The user's permissions in the scope's channel; `None` when the guild has no owner
    /// on record or the lookup failed.
    pub channel_permissions: Option<u64>,
}

/// Whether an event of scope `scope` goes to the session of `user_id`.
pub open spec fn should_deliver_spec(user_id: i64, scope: EventScope, facts: ScopeFacts) -> bool {
    match scope {
        EventScope::User(u) => u == user_id,
        EventScope::Guild(_) => facts.guild_member,
        EventScope::Dm(_) => facts.dm_recipient,
        EventScope::Channel { .. } => match facts.channel_permissions {
            Some(p) => has_spec(p, VIEW_CHANNEL),
            None => false,
        },
    }
}

/// Whether an event of scope `scope` goes to the session of `user_id`: a user scope only
/// to that user, a guild scope to its members, a conversation to its recipients, a
/// channel to those who may view it.
pub fn should_deliver(user_id: i64, scope: &EventScope, facts: &ScopeFacts) -> (r: bool)
    ensures
        r == should_deliver_spec(user_id, *scope, *facts),
{
    match scope {
        EventScope::User(u) => *u == user_id,
        EventScope::Guild(_) => facts.guild_member,
        EventScope::Dm(_) => facts.dm_recipient,
        EventScope::Channel { .. } => match facts.channel_permissions {
            Some(p) => has(p, VIEW_CHANNEL),
            None => false,
        },
    }
}

/// A channel event reaches no one whose permissions in that channel lack
/// `VIEW_CHANNEL`, nor anyone whose permissions could not be established.
pub proof fn law_channel_events_need_view(user_id: i64, guild_id: i64, channel_id: i64, facts: ScopeFacts)
    requires
        guild_id != 0,
    ensures
        should_deliver_spec(user_id, EventScope::Channel { guild_id, channel_id }, facts) <==> (
        facts.channel_permissions matches Some(p) && has_spec(p, VIEW_CHANNEL)),
{
}

/// An event addressed to one user reaches that user and no other, whatever the store says.
pub proof fn law_user_events_are_private(target: i64, user_id: i64, facts: ScopeFacts)
    ensures
        should_deliver_spec(user_id, EventScope::User(target), facts) <==> user_id == target,
{
}

} // verus!
