//! Permission bits (Discord-compatible layout) and the `has` test.

use vstd::prelude::*;

verus! {

pub const CREATE_INSTANT_INVITE: u64 = 0x1;
pub const KICK_MEMBERS: u64 = 0x2;
pub const BAN_MEMBERS: u64 = 0x4;
pub const ADMINISTRATOR: u64 = 0x8;
pub const MANAGE_CHANNELS: u64 = 0x10;
pub const MANAGE_GUILD: u64 = 0x20;
pub const ADD_REACTIONS: u64 = 0x40;
pub const VIEW_AUDIT_LOG: u64 = 0x80;
pub const PRIORITY_SPEAKER: u64 = 0x100;
pub const STREAM: u64 = 0x200;
pub const VIEW_CHANNEL: u64 = 0x400;
pub const SEND_MESSAGES: u64 = 0x800;
pub const SEND_TTS_MESSAGES: u64 = 0x1000;
pub const MANAGE_MESSAGES: u64 = 0x2000;
pub const EMBED_LINKS: u64 = 0x4000;
pub const ATTACH_FILES: u64 = 0x8000;
pub const READ_MESSAGE_HISTORY: u64 = 0x1_0000;
pub const MENTION_EVERYONE: u64 = 0x2_0000;
pub const USE_EXTERNAL_EMOJIS: u64 = 0x4_0000;
pub const VIEW_GUILD_INSIGHTS: u64 = 0x8_0000;
pub const CONNECT: u64 = 0x10_0000;
pub const SPEAK: u64 = 0x20_0000;
pub const MUTE_MEMBERS: u64 = 0x40_0000;
pub const DEAFEN_MEMBERS: u64 = 0x80_0000;
pub const MOVE_MEMBERS: u64 = 0x100_0000;
pub const USE_VAD: u64 = 0x200_0000;
pub const CHANGE_NICKNAME: u64 = 0x400_0000;
pub const MANAGE_NICKNAMES: u64 = 0x800_0000;
pub const MANAGE_ROLES: u64 = 0x1000_0000;
pub const MANAGE_WEBHOOKS: u64 = 0x2000_0000;
pub const MANAGE_GUILD_EXPRESSIONS: u64 = 0x4000_0000;
pub const USE_APPLICATION_COMMANDS: u64 = 0x8000_0000;
pub const REQUEST_TO_SPEAK: u64 = 0x1_0000_0000;
pub const MANAGE_EVENTS: u64 = 0x2_0000_0000;
pub const MANAGE_THREADS: u64 = 0x4_0000_0000;
pub const CREATE_PUBLIC_THREADS: u64 = 0x8_0000_0000;
pub const CREATE_PRIVATE_THREADS: u64 = 0x10_0000_0000;
pub const USE_EXTERNAL_STICKERS: u64 = 0x20_0000_0000;
pub const SEND_MESSAGES_IN_THREADS: u64 = 0x40_0000_0000;
pub const USE_EMBEDDED_ACTIVITIES: u64 = 0x80_0000_0000;
pub const MODERATE_MEMBERS: u64 = 0x100_0000_0000;
pub const USE_SOUNDBOARD: u64 = 0x400_0000_0000;
pub const CREATE_GUILD_EXPRESSIONS: u64 = 0x800_0000_0000;
pub const CREATE_EVENTS: u64 = 0x1000_0000_0000;
pub const USE_EXTERNAL_SOUNDS: u64 = 0x2000_0000_0000;
pub const SEND_VOICE_MESSAGES: u64 = 0x4000_0000_0000;
pub const SEND_POLLS: u64 = 0x2_0000_0000_0000;
pub const PIN_MESSAGES: u64 = 0x8_0000_0000_0000;
pub const BYPASS_SLOWMODE: u64 = 0x10_0000_0000_0000;

/// Every permission bit the server knows (bits 0 to 52).
pub const ALL: u64 = 0x1F_FFFF_FFFF_FFFF;

/// Permissions of the `@everyone` role of a freshly created guild.
pub const DEFAULT_EVERYONE: u64 = CREATE_INSTANT_INVITE | ADD_REACTIONS | STREAM | VIEW_CHANNEL
    | SEND_MESSAGES | EMBED_LINKS | ATTACH_FILES | READ_MESSAGE_HISTORY | USE_EXTERNAL_EMOJIS
    | CONNECT | SPEAK | USE_VAD | CHANGE_NICKNAME | CREATE_PUBLIC_THREADS | USE_EXTERNAL_STICKERS
    | SEND_MESSAGES_IN_THREADS | SEND_VOICE_MESSAGES;

/// `p` grants every bit of `needed`.
pub open spec fn has_spec(p: u64, needed: u64) -> bool {
    p & needed == needed
}

/// Whether the permission set `p` grants every bit of `needed`.
#[verifier::when_used_as_spec(has_spec)]
pub fn has(p: u64, needed: u64) -> (r: bool)
    ensures
        r == has_spec(p, needed),
{
    p & needed == needed
}

} // verus!
