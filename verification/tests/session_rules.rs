use ozone_api::gateway::{
    handshake_action, pump_action, user_update_recipients, HandshakeAction, Incoming, PumpAction,
    PumpEvent, OP_HEARTBEAT, OP_IDENTIFY, OP_RESUME, OP_VOICE_SPEAKING,
};
use ozone_api::hits::{guild_update_allowed, profile_update_allowed, HitLog, WINDOW_MS};
use ozone_api::perms::{SEND_MESSAGES, VIEW_CHANNEL};
use ozone_api::presence::{custom_status_after, Registry};
use ozone_api::session::{SessionOwners, SessionState, BUFFER_CAP, GRACE_MS};
use ozone_api::state::{should_deliver, EventScope, ScopeFacts};

fn facts(member: bool, recipient: bool, perms: Option<u64>) -> ScopeFacts {
    ScopeFacts { guild_member: member, dm_recipient: recipient, channel_permissions: perms }
}

#[test]
fn resume_replays_only_missed_frames() {
    let mut s = SessionState::new(0);
    let first = s.attach(0);
    assert!(first.ok);
    assert_eq!(first.current_seq, 0);
    assert!(first.replay.is_empty());
    assert!(s.record("a".to_string()));
    assert!(s.record("b".to_string()));
    s.detach(1_000);
    assert!(!s.record("c".to_string()));
    assert!(!s.record("d".to_string()));
    let ack = s.attach(2);
    assert!(ack.ok);
    assert_eq!(ack.current_seq, 4);
    assert_eq!(ack.replay, vec!["c".to_string(), "d".to_string()]);
    assert!(s.is_attached());
}

#[test]
fn resume_refused_after_eviction() {
    let mut s = SessionState::new(0);
    let mut i = 0;
    while i < BUFFER_CAP + 3 {
        s.record(format!("event {i}"));
        i += 1;
    }
    assert_eq!(s.current_seq(), (BUFFER_CAP + 3) as u64);
    let refused = s.attach(1);
    assert!(!refused.ok);
    assert!(refused.replay.is_empty());
    assert!(!s.is_attached());
    let ok = s.attach(3);
    assert!(ok.ok);
    assert_eq!(ok.replay.len(), BUFFER_CAP);
    assert_eq!(ok.replay[0], "event 3");
}

#[test]
fn detached_session_expires_after_grace() {
    let mut s = SessionState::new(10);
    assert!(!s.expired(10 + GRACE_MS - 1));
    assert!(s.expired(10 + GRACE_MS));
    s.attach(0);
    assert!(!s.expired(i64::MAX));
    s.send_failed(500);
    assert!(s.expired(500 + GRACE_MS));
    assert_eq!(s.next_seq(), 1);
}

#[test]
fn sessions_resume_only_for_their_owner() {
    let mut owners = SessionOwners::new();
    owners.insert(77, 5);
    assert!(owners.may_resume(77, 5));
    assert!(!owners.may_resume(77, 6));
    assert!(!owners.may_resume(78, 5));
    owners.remove(77);
    assert!(!owners.may_resume(77, 5));
}

#[test]
fn presence_counts_connections() {
    let mut reg = Registry::new();
    assert!(reg.connect(9));
    assert!(!reg.connect(9));
    assert_eq!(reg.effective(9).0, "online");
    assert!(!reg.disconnect(9));
    assert_eq!(reg.effective(9).0, "online");
    assert!(reg.disconnect(9));
    assert_eq!(reg.effective(9), ("offline".to_string(), None));
    assert!(!reg.disconnect(9));
}

#[test]
fn invisible_users_look_offline() {
    let mut reg = Registry::new();
    reg.connect(4);
    reg.set_status(4, "invisible", Some("busy".to_string()));
    assert_eq!(reg.effective(4), ("offline".to_string(), None));
    assert_eq!(reg.current_custom(4), Some("busy".to_string()));
    reg.set_status(4, "dnd", Some("busy".to_string()));
    assert_eq!(reg.effective(4), ("dnd".to_string(), Some("busy".to_string())));
    assert!(Registry::valid_status("idle"));
    assert!(!Registry::valid_status("away"));
}

#[test]
fn custom_status_three_states() {
    assert_eq!(custom_status_after(Some("x".to_string()), None).ok(), Some(Some("x".to_string())));
    assert_eq!(custom_status_after(Some("x".to_string()), Some(None)).ok(), Some(None));
    assert_eq!(custom_status_after(None, Some(Some("  hi  ".to_string()))).ok(), Some(Some("hi".to_string())));
    assert_eq!(custom_status_after(None, Some(Some("   ".to_string()))).ok(), Some(None));
    let e = custom_status_after(None, Some(Some("a".repeat(129)))).err().unwrap();
    assert_eq!(e.message, "statut personnalisé trop long (max 128)");
}

#[test]
fn scopes_route_events() {
    assert!(should_deliver(5, &EventScope::User(5), &facts(false, false, None)));
    assert!(!should_deliver(6, &EventScope::User(5), &facts(true, true, Some(VIEW_CHANNEL))));
    assert!(should_deliver(6, &EventScope::Guild(1), &facts(true, false, None)));
    assert!(!should_deliver(6, &EventScope::Guild(1), &facts(false, true, None)));
    assert!(should_deliver(6, &EventScope::Dm(8), &facts(false, true, None)));
    let ch = EventScope::channel(1, 2);
    assert_eq!(ch, EventScope::Channel { guild_id: 1, channel_id: 2 });
    assert!(should_deliver(6, &ch, &facts(true, false, Some(VIEW_CHANNEL | SEND_MESSAGES))));
    assert!(!should_deliver(6, &ch, &facts(true, false, Some(SEND_MESSAGES))));
    assert!(!should_deliver(6, &ch, &facts(true, false, None)));
    assert_eq!(EventScope::channel(0, 2), EventScope::Dm(2));
}

#[test]
fn update_window_allows_five_guild_updates() {
    let mut log = HitLog::new();
    let mut t = 1_000;
    let mut i = 0;
    while i < 5 {
        assert!(guild_update_allowed(&mut log, 3, t));
        t += 1;
        i += 1;
    }
    assert!(!guild_update_allowed(&mut log, 3, t));
    assert!(guild_update_allowed(&mut log, 4, t));
    assert!(guild_update_allowed(&mut log, 3, 1_000 + WINDOW_MS));
}

#[test]
fn update_window_slides_over_earlier_grants() {
    let mut log = HitLog::new();
    for t in [0, 100, 200, 300, 400] {
        assert!(guild_update_allowed(&mut log, 9, t));
    }
    assert!(!guild_update_allowed(&mut log, 9, 500));
    assert!(guild_update_allowed(&mut log, 9, WINDOW_MS));
    assert!(!guild_update_allowed(&mut log, 9, WINDOW_MS + 50));
    assert!(guild_update_allowed(&mut log, 9, WINDOW_MS + 100));
}

#[test]
fn update_window_allows_ten_profile_updates() {
    let mut log = HitLog::new();
    let mut i = 0;
    while i < 10 {
        assert!(profile_update_allowed(&mut log, 1, 50));
        i += 1;
    }
    assert!(!profile_update_allowed(&mut log, 1, 50 + WINDOW_MS - 1));
    assert!(profile_update_allowed(&mut log, 1, 50 + WINDOW_MS));
}

#[test]
fn handshake_decisions() {
    assert_eq!(handshake_action(Incoming::Frame(OP_IDENTIFY), Some(3)), HandshakeAction::Identify(3));
    assert_eq!(handshake_action(Incoming::Frame(OP_IDENTIFY), None), HandshakeAction::InvalidSession);
    assert_eq!(handshake_action(Incoming::Frame(OP_RESUME), Some(3)), HandshakeAction::Resume(3));
    assert_eq!(handshake_action(Incoming::Frame(OP_HEARTBEAT), None), HandshakeAction::HeartbeatAck);
    assert_eq!(handshake_action(Incoming::Unreadable, Some(3)), HandshakeAction::Ignore);
    assert_eq!(handshake_action(Incoming::Close, Some(3)), HandshakeAction::Stop);
}

#[test]
fn attached_loop_decisions() {
    assert_eq!(pump_action(PumpEvent::Outgoing { sent: false }), PumpAction::Detach);
    assert_eq!(pump_action(PumpEvent::Outgoing { sent: true }), PumpAction::Continue);
    assert_eq!(pump_action(PumpEvent::SessionEnded), PumpAction::Stop);
    assert_eq!(pump_action(PumpEvent::FromClient(Incoming::Frame(OP_HEARTBEAT))), PumpAction::HeartbeatAck);
    assert_eq!(pump_action(PumpEvent::FromClient(Incoming::Frame(OP_VOICE_SPEAKING))), PumpAction::Speaking);
    assert_eq!(pump_action(PumpEvent::FromClient(Incoming::Close)), PumpAction::Close);
    assert_eq!(pump_action(PumpEvent::FromClient(Incoming::Gone)), PumpAction::Detach);
}

#[test]
fn profile_change_reaches_each_user_once() {
    let r = user_update_recipients(5, &vec![9, 2, 9], &vec![2, 7, 5]);
    assert_eq!(r, vec![2, 5, 7, 9]);
}
