//! Voice signalling: joining, moving and leaving voice channels, one's own flags, and
//! voice moderation (server mute, server deafen, move, disconnect).

use vstd::prelude::*;
use crate::error::{AppError, is_bad_request, is_forbidden, is_not_found};
use crate::perms::{has, has_spec, DEAFEN_MEMBERS, MOVE_MEMBERS, MUTE_MEMBERS};

verus! {

/// Channel type of a voice channel.
pub const CHANNEL_VOICE: i64 = 2;
/// Channel type of a stage channel.
pub const CHANNEL_STAGE: i64 = 13;

/// A user's own voice flags.
#[derive(Clone, Copy, Debug, PartialEq, Eq, Structural)]
pub struct VoiceFlags {
    pub self_mute: bool,
    pub self_deaf: bool,
    pub self_video: bool,
    pub self_stream: bool,
}

/// The flags a client sends, each optional.
#[derive(Clone, Copy, Debug)]
pub struct VoiceFlagsRequest {
    pub self_mute: Option<bool>,
    pub self_deaf: Option<bool>,
    pub self_video: Option<bool>,
    pub self_stream: Option<bool>,
}

pub open spec fn or_bool(v: Option<bool>, default: bool) -> bool {
    match v {
        Some(b) => b,
        None => default,
    }
}

fn or_else(v: Option<bool>, default: bool) -> (r: bool)
    ensures
        r == or_bool(v, default),
{
    match v {
        Some(b) => b,
        None => default,
    }
}

/// Flags on joining a channel: each flag not sent is off.
pub fn join_flags(req: VoiceFlagsRequest) -> (f: VoiceFlags)
    ensures
        f.self_mute == or_bool(req.self_mute, false),
        f.self_deaf == or_bool(req.self_deaf, false),
        f.self_video == or_bool(req.self_video, false),
        f.self_stream == or_bool(req.self_stream, false),
{
    VoiceFlags {
        self_mute: or_else(req.self_mute, false),
        self_deaf: or_else(req.self_deaf, false),
        self_video: or_else(req.self_video, false),
        self_stream: or_else(req.self_stream, false),
    }
}

/// Flags after an update while connected: each flag not sent keeps its value.
pub fn updated_flags(cur: VoiceFlags, req: VoiceFlagsRequest) -> (f: VoiceFlags)
    ensures
        f.self_mute == or_bool(req.self_mute, cur.self_mute),
        f.self_deaf == or_bool(req.self_deaf, cur.self_deaf),
        f.self_video == or_bool(req.self_video, cur.self_video),
        f.self_stream == or_bool(req.self_stream, cur.self_stream),
{
    VoiceFlags {
        self_mute: or_else(req.self_mute, cur.self_mute),
        self_deaf: or_else(req.self_deaf, cur.self_deaf),
        self_video: or_else(req.self_video, cur.self_video),
        self_stream: or_else(req.self_stream, cur.self_stream),
    }
}

/// A voice target must be a voice or stage channel of the guild: `channel` is its type
/// and guild when it exists.
pub fn check_voice_channel(channel: Option<(i64, Option<i64>)>, guild_id: i64) -> (r: Result<(), AppError>)
    ensures
        match channel {
            None => r matches Err(e) && is_not_found(e, "salon introuvable"@),
            Some((kind, g)) => if g == Some(guild_id) && (kind == CHANNEL_VOICE || kind == CHANNEL_STAGE) {
                r is Ok
            } else {
                r matches Err(e) && is_bad_request(e, "le salon cible n'est pas un salon vocal de cette guilde"@)
            },
        },
{
    match channel {
        None => Err(AppError::not_found("salon introuvable")),
        Some((kind, g)) => {
            let same_guild = match g {
                Some(x) => x == guild_id,
                None => false,
            };
            if same_guild && (kind == CHANNEL_VOICE || kind == CHANNEL_STAGE) {
                Ok(())
            } else {
                Err(AppError::bad_request("le salon cible n'est pas un salon vocal de cette guilde"))
            }
        },
    }
}

/// A flags update needs a voice connection in this guild: `connected_guild` is the guild
/// of the user's current voice state, if any.
pub fn check_connected(connected_guild: Option<i64>, guild_id: i64) -> (r: Result<(), AppError>)
    ensures
        connected_guild == Some(guild_id) ==> r is Ok,
        connected_guild != Some(guild_id) ==> (r matches Err(e) && is_bad_request(
            e,
            "vous n'êtes pas connecté au vocal de cette guilde"@,
        )),
{
    match connected_guild {
        Some(g) => if g == guild_id {
            return Ok(());
        },
        None => {},
    }
    Err(AppError::bad_request("vous n'êtes pas connecté au vocal de cette guilde"))
}

/// A moderation request on another member's voice state.
#[derive(Clone, Copy, Debug)]
pub struct VoiceModeration {
    pub mute: Option<bool>,
    pub deaf: Option<bool>,
    pub channel_id: Option<i64>,
    pub disconnect: Option<bool>,
}

/// What a voice moderation does.
#[derive(Clone, Copy, Debug, PartialEq, Eq, Structural)]
pub enum VoiceModerationPlan {
    /// Remove the member from voice.
    Disconnect,
    /// Set the server mute and deafen flags and the channel.
    Update { mute: bool, deaf: bool, channel_id: i64 },
}

/// The target's current voice state, as moderation reads it.
#[derive(Clone, Copy, Debug)]
pub struct ModeratedState {
    pub channel_id: i64,
    pub mute: bool,
    pub deaf: bool,
}

/// The permission that a moderation request lacks first, if any: muting takes
/// `MUTE_MEMBERS`, deafening `DEAFEN_MEMBERS`, moving or disconnecting `MOVE_MEMBERS`.
pub open spec fn moderation_allowed(req: VoiceModeration, perms: u64) -> bool {
    &&& (req.mute is Some ==> has_spec(perms, MUTE_MEMBERS))
    &&& (req.deaf is Some ==> has_spec(perms, DEAFEN_MEMBERS))
    &&& (req.channel_id is Some || req.disconnect == Some(true) ==> has_spec(perms, MOVE_MEMBERS))
}

/// Plans a voice moderation by a member with guild permissions `perms`. `target` is the
/// target's voice state in this guild (`None` when not connected here), `owner` the
/// guild's owner, `new_channel` the lookup of the requested channel (type and guild).
pub fn plan_voice_moderation(
    target_id: i64,
    target: Option<ModeratedState>,
    owner: Option<i64>,
    perms: u64,
    req: VoiceModeration,
    new_channel: Option<(i64, Option<i64>)>,
    guild_id: i64,
) -> (r: Result<VoiceModerationPlan, AppError>)
    ensures
        target is None ==> (r matches Err(e) && is_not_found(e, "ce membre n'est pas connecté au vocal"@)),
        target is Some && owner is None ==> (r matches Err(e) && is_not_found(e, "guilde introuvable"@)),
        target is Some && owner == Some(target_id) ==> (r matches Err(e) && is_forbidden(
            e,
            "impossible de modérer le propriétaire en vocal"@,
        )),
        target is Some && owner is Some && owner != Some(target_id) && !moderation_allowed(req, perms)
            ==> (r matches Err(e) && is_forbidden(e, "permissions insuffisantes"@)),
        r is Ok ==> target is Some && owner is Some && owner != Some(target_id)
            && moderation_allowed(req, perms),
        r is Ok && req.disconnect == Some(true) ==> r == Ok::<VoiceModerationPlan, AppError>(
            VoiceModerationPlan::Disconnect,
        ),
        r is Ok && req.disconnect != Some(true) ==> r == Ok::<VoiceModerationPlan, AppError>(
            VoiceModerationPlan::Update {
                mute: or_bool(req.mute, target->Some_0.mute),
                deaf: or_bool(req.deaf, target->Some_0.deaf),
                channel_id: match req.channel_id {
                    Some(c) => c,
                    None => target->Some_0.channel_id,
                },
            },
        ),
        target is Some && owner is Some && owner != Some(target_id) && moderation_allowed(req, perms)
            && req.disconnect != Some(true) && req.channel_id is Some ==> (match new_channel {
            None => r matches Err(e) && is_not_found(e, "salon introuvable"@),
            Some((kind, g)) => (g == Some(guild_id) && (kind == CHANNEL_VOICE || kind == CHANNEL_STAGE))
                <==> r is Ok,
        }),
        target is Some && owner is Some && owner != Some(target_id) && moderation_allowed(req, perms)
            && (req.disconnect == Some(true) || req.channel_id is None) ==> r is Ok,
{
    let cur = match target {
        None => return Err(AppError::not_found("ce membre n'est pas connecté au vocal")),
        Some(t) => t,
    };
    let o = match owner {
        None => return Err(AppError::not_found("guilde introuvable")),
        Some(o) => o,
    };
    if target_id == o {
        return Err(AppError::forbidden("impossible de modérer le propriétaire en vocal"));
    }
    if req.mute.is_some() && !crate::perms::has(perms, MUTE_MEMBERS) {
        return Err(AppError::forbidden("permissions insuffisantes"));
    }
    if req.deaf.is_some() && !crate::perms::has(perms, DEAFEN_MEMBERS) {
        return Err(AppError::forbidden("permissions insuffisantes"));
    }
    let disconnect = match req.disconnect {
        Some(d) => d,
        None => false,
    };
    if (req.channel_id.is_some() || disconnect) && !crate::perms::has(perms, MOVE_MEMBERS) {
        return Err(AppError::forbidden("permissions insuffisantes"));
    }
    if disconnect {
        return Ok(VoiceModerationPlan::Disconnect);
    }
    let channel_id = match req.channel_id {
        Some(c) => {
            match check_voice_channel(new_channel, guild_id) {
                Ok(()) => {},
                Err(e) => return Err(e),
            }
            c
        },
        None => cur.channel_id,
    };
    Ok(
        VoiceModerationPlan::Update {
            mute: or_else(req.mute, cur.mute),
            deaf: or_else(req.deaf, cur.deaf),
            channel_id,
        },
    )
}

} // verus!
