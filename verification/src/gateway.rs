//! The gateway connection: the handshake (identify or resume) and the attached loop of a
//! WebSocket, as decisions on what arrives, and who hears of a profile change.

use vstd::prelude::*;
use crate::dms::{insert_sorted, strictly_increasing};

verus! {

/// Opcode of an event dispatch.
pub const OP_DISPATCH: u8 = 0;
/// Opcode of a heartbeat.
pub const OP_HEARTBEAT: u8 = 1;
/// Opcode of an identification (new session).
pub const OP_IDENTIFY: u8 = 2;
/// Opcode of a "speaking" signal in voice.
pub const OP_VOICE_SPEAKING: u8 = 5;
/// Opcode of a resumption.
pub const OP_RESUME: u8 = 6;
/// Opcode of a refused session.
pub const OP_INVALID_SESSION: u8 = 9;
/// Opcode of the greeting.
pub const OP_HELLO: u8 = 10;
/// Opcode of a heartbeat acknowledgement.
pub const OP_HEARTBEAT_ACK: u8 = 11;
/// Heartbeat interval announced in the greeting, in milliseconds.
pub const HEARTBEAT_INTERVAL_MS: u64 = 41_250;

/// What a WebSocket delivers.
#[derive(Clone, Copy, Debug, PartialEq, Eq, Structural)]
pub enum Incoming {
    /// A text frame holding a gateway frame with this opcode.
    Frame(u8),
    /// A text frame that is not a gateway frame.
    Unreadable,
    /// A ping, pong or binary message.
    NonText,
    /// A close frame.
    Close,
    /// The stream ended or failed.
    Gone,
}

/// What to do during the handshake.
#[derive(Clone, Copy, Debug, PartialEq, Eq, Structural)]
pub enum HandshakeAction {
    /// Stop serving the socket.
    Stop,
    /// Wait for the next message.
    Ignore,
    /// Answer a refused session and wait.
    InvalidSession,
    /// Answer a heartbeat and wait.
    HeartbeatAck,
    /// Open a new session for this user and send `READY`.
    Identify(i64),
    /// Try to resume the named session for this user.
    Resume(i64),
}

/// The handshake step for what arrived; `user` is the user named by the frame's access
/// token when it verifies.
pub fn handshake_action(incoming: Incoming, user: Option<i64>) -> (r: HandshakeAction)
    ensures
        r == (match incoming {
            Incoming::Close | Incoming::Gone => HandshakeAction::Stop,
            Incoming::NonText | Incoming::Unreadable => HandshakeAction::Ignore,
            Incoming::Frame(op) => if op == OP_IDENTIFY {
                match user {
                    Some(u) => HandshakeAction::Identify(u),
                    None => HandshakeAction::InvalidSession,
                }
            } else if op == OP_RESUME {
                match user {
                    Some(u) => HandshakeAction::Resume(u),
                    None => HandshakeAction::InvalidSession,
                }
            } else if op == OP_HEARTBEAT {
                HandshakeAction::HeartbeatAck
            } else {
                HandshakeAction::Ignore
            },
        }),
{
    match incoming {
        Incoming::Close | Incoming::Gone => HandshakeAction::Stop,
        Incoming::NonText | Incoming::Unreadable => HandshakeAction::Ignore,
        Incoming::Frame(op) => if op == OP_IDENTIFY {
            match user {
                Some(u) => HandshakeAction::Identify(u),
                None => HandshakeAction::InvalidSession,
            }
        } else if op == OP_RESUME {
            match user {
                Some(u) => HandshakeAction::Resume(u),
                None => HandshakeAction::InvalidSession,
            }
        } else if op == OP_HEARTBEAT {
            HandshakeAction::HeartbeatAck
        } else {
            HandshakeAction::Ignore
        },
    }
}

/// What arrives while a socket is attached to its session.
#[derive(Clone, Copy, Debug, PartialEq, Eq, Structural)]
pub enum PumpEvent {
    /// The session has a frame for the socket; `sent` says whether sending it worked.
    Outgoing { sent: bool },
    /// The session ended (its grace period ran out).
    SessionEnded,
    /// The client sent something.
    FromClient(Incoming),
}

/// What to do while attached.
#[derive(Clone, Copy, Debug, PartialEq, Eq, Structural)]
pub enum PumpAction {
    /// Keep going.
    Continue,
    /// Answer the heartbeat, then keep going.
    HeartbeatAck,
    /// Relay the speaking signal to the user's voice channel, then keep going.
    Speaking,
    /// The network went away: detach, keeping the session resumable.
    Detach,
    /// The client closed: end the session.
    Close,
    /// The session is over: stop.
    Stop,
}

/// What the attached loop does on each event.
pub open spec fn pump_spec(ev: PumpEvent) -> PumpAction {
    (match ev {
        PumpEvent::Outgoing { sent } => if sent { PumpAction::Continue } else { PumpAction::Detach },
        PumpEvent::SessionEnded => PumpAction::Stop,
        PumpEvent::FromClient(Incoming::Frame(op)) => if op == OP_HEARTBEAT {
            PumpAction::HeartbeatAck
        } else if op == OP_VOICE_SPEAKING {
            PumpAction::Speaking
        } else {
            PumpAction::Continue
        },
        PumpEvent::FromClient(Incoming::Close) => PumpAction::Close,
        PumpEvent::FromClient(Incoming::Gone) => PumpAction::Detach,
        PumpEvent::FromClient(_) => PumpAction::Continue,
    })
}

/// The step of the attached loop for an event.
pub fn pump_action(ev: PumpEvent) -> (r: PumpAction)
    ensures
        r == pump_spec(ev),
{
    match ev {
        PumpEvent::Outgoing { sent } => if sent {
            PumpAction::Continue
        } else {
            PumpAction::Detach
        },
        PumpEvent::SessionEnded => PumpAction::Stop,
        PumpEvent::FromClient(inc) => match inc {
            Incoming::Frame(op) => if op == OP_HEARTBEAT {
                PumpAction::HeartbeatAck
            } else if op == OP_VOICE_SPEAKING {
                PumpAction::Speaking
            } else {
                PumpAction::Continue
            },
            Incoming::Close => PumpAction::Close,
            Incoming::Gone => PumpAction::Detach,
            _ => PumpAction::Continue,
        },
    }
}

/// Only a client close ends a session at once; a failed send or a lost stream detaches
/// it, which keeps it resumable.
pub proof fn law_only_close_ends_session(ev: PumpEvent)
    ensures
        pump_spec(ev) == PumpAction::Close <==> ev == PumpEvent::FromClient(Incoming::Close),
        pump_spec(ev) == PumpAction::Detach <==> (ev == PumpEvent::Outgoing { sent: false } || ev
            == PumpEvent::FromClient(Incoming::Gone)),
{
}

/// The users told of a profile change, each once: the user, their friends (both ways)
/// and the other participants of their conversations.
pub fn user_update_recipients(uid: i64, friends: &Vec<i64>, co_recipients: &Vec<i64>) -> (r: Vec<i64>)
    ensures
        strictly_increasing(r@),
        r@.to_set() == friends@.to_set().union(co_recipients@.to_set()).insert(uid),
{
    let mut out: Vec<i64> = Vec::new();
    insert_sorted(&mut out, uid);
    assert(out@.to_set() =~= Seq::<i64>::empty().to_set().insert(uid));
    let mut i: usize = 0;
    while i < friends.len()
        invariant
            0 <= i <= friends@.len(),
            strictly_increasing(out@),
            out@.to_set() == friends@.take(i as int).to_set().insert(uid),
        decreases friends.len() - i,
    {
        let x = friends[i];
        proof {
            assert(friends@.take(i + 1) =~= friends@.take(i as int).push(x));
            friends@.take(i as int).lemma_push_to_set_commute(x);
        }
        insert_sorted(&mut out, x);
        assert(out@.to_set() =~= friends@.take(i + 1).to_set().insert(uid));
        i = i + 1;
    }
    assert(friends@.take(friends@.len() as int) =~= friends@);
    let mut j: usize = 0;
    while j < co_recipients.len()
        invariant
            0 <= j <= co_recipients@.len(),
            strictly_increasing(out@),
            out@.to_set() == friends@.to_set().union(co_recipients@.take(j as int).to_set()).insert(uid),
        decreases co_recipients.len() - j,
    {
        let x = co_recipients[j];
        proof {
            assert(co_recipients@.take(j + 1) =~= co_recipients@.take(j as int).push(x));
            co_recipients@.take(j as int).lemma_push_to_set_commute(x);
        }
        insert_sorted(&mut out, x);
        assert(out@.to_set() =~= friends@.to_set().union(co_recipients@.take(j + 1).to_set()).insert(uid));
        j = j + 1;
    }
    assert(co_recipients@.take(co_recipients@.len() as int) =~= co_recipients@);
    out
}

} // verus!
