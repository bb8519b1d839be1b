//! Read markers and notification settings (level and mute) of a user, per guild or
//! channel.

use vstd::prelude::*;
use crate::error::{AppError, is_bad_request};
use crate::perms::{has, has_spec, READ_MESSAGE_HISTORY, VIEW_CHANNEL};
use crate::validate::valid_level;

verus! {

/// The read marker after acknowledging message `message_id`: it never moves back.
pub open spec fn acked_marker(last_read: Option<i64>, message_id: i64) -> i64 {
    match last_read {
        Some(l) => if l > message_id { l } else { message_id },
        None => message_id,
    }
}

/// The read marker of a channel after acknowledging up to `message_id` (its mention
/// count drops to zero).
pub fn ack_marker(last_read: Option<i64>, message_id: i64) -> (r: i64)
    ensures
        r == acked_marker(last_read, message_id),
{
    match last_read {
        Some(l) => if l > message_id {
            l
        } else {
            message_id
        },
        None => message_id,
    }
}

/// Acknowledgements never move a read marker back, and the marker covers every message
/// acknowledged, in whatever order the acknowledgements come.
pub proof fn law_read_marker_monotone(last_read: Option<i64>, a: i64, b: i64)
    ensures
        last_read matches Some(l) ==> acked_marker(last_read, a) >= l,
        acked_marker(last_read, a) >= a,
        acked_marker(Some(acked_marker(last_read, a)), b) == acked_marker(Some(acked_marker(last_read, b)), a),
{
}

/// Channels acknowledged by a guild-wide acknowledgement: those the user may view and
/// read the history of.
pub fn ackable(perms: u64) -> (r: bool)
    ensures
        r == has_spec(perms, VIEW_CHANNEL | READ_MESSAGE_HISTORY),
{
    has(perms, VIEW_CHANNEL | READ_MESSAGE_HISTORY)
}

/// Default level of a scope without setting: `3` (inherit) for a channel, `0` for a guild.
pub open spec fn default_level(scope_type: u8) -> u8 {
    if scope_type == 1 { 3 } else { 0 }
}

/// Level allowed for a scope (see [`valid_level`]).
pub open spec fn level_ok(scope_type: u8, level: u8) -> bool {
    if scope_type == 1 { level <= 3 } else { level <= 2 }
}

/// Mute end after a request: unchanged when not sent, lifted by `0`, `now` plus the
/// seconds for a positive value, forever (`i64::MAX`) for a negative one.
pub open spec fn muted_after(current: Option<i64>, mute_seconds: Option<i64>, now: i64) -> Option<i64> {
    match mute_seconds {
        None => current,
        Some(n) => if n == 0 {
            None
        } else if n > 0 {
            Some((now + n * 1000) as i64)
        } else {
            Some(i64::MAX)
        },
    }
}

/// The setting of a scope after a request: `existing` is the stored level and mute end,
/// if any. A level not sent keeps the current one; an invalid level is refused.
pub fn plan_setting(
    scope_type: u8,
    existing: Option<(i64, Option<i64>)>,
    level: Option<u8>,
    mute_seconds: Option<i64>,
    now: i64,
) -> (r: Result<(u8, Option<i64>), AppError>)
    requires
        mute_seconds matches Some(n) ==> (n > 0 ==> n * 1000 <= i64::MAX && now + n * 1000 <= i64::MAX),
    ensures
        level matches Some(l) && !level_ok(scope_type, l) ==> (r matches Err(e) && is_bad_request(
            e,
            "niveau de notification invalide"@,
        )),
        !(level matches Some(l) && !level_ok(scope_type, l)) ==> r == Ok::<(u8, Option<i64>), AppError>(
            (
                match level {
                    Some(l) => l,
                    None => match existing {
                        Some((stored, _)) => stored as u8,
                        None => default_level(scope_type),
                    },
                },
                muted_after(
                    match existing {
                        Some((_, m)) => m,
                        None => None,
                    },
                    mute_seconds,
                    now,
                ),
            ),
        ),
{
    let cur_level: u8 = match existing {
        Some((stored, _)) => stored as u8,
        None => if scope_type == 1 {
            3
        } else {
            0
        },
    };
    let cur_mute = match existing {
        Some((_, m)) => m,
        None => None,
    };
    let new_level = match level {
        Some(l) => {
            if !valid_level(scope_type, l) {
                return Err(AppError::bad_request("niveau de notification invalide"));
            }
            l
        },
        None => cur_level,
    };
    let muted = match mute_seconds {
        None => cur_mute,
        Some(n) => if n == 0 {
            None
        } else if n > 0 {
            Some(now + n * 1000)
        } else {
            Some(i64::MAX)
        },
    };
    Ok((new_level, muted))
}

} // verus!
