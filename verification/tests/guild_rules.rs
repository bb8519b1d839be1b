use ozone_api::attachments::{
    add_chunk, attachment_url, check_uploaded, content_disposition, disposition, stored_names,
    MAX_ATTACHMENT_SIZE,
};
use ozone_api::channels::{
    check_category, check_guild_delete, check_new_thread, plan_channel_reorder, visible_ids,
    ChannelMove, ChannelPosition, ParentChange, ReorderFacts,
};
use ozone_api::db::{now_ms, timestamp_of};
use ozone_api::dms::{
    after_removal, check_add_recipient, check_remove_recipient, dm_recipients, order_dm_channels,
    GroupAfterRemoval,
};
use ozone_api::error::AppError;
use ozone_api::events::{
    plan_event_update, plan_new_event, require_event_create, require_event_manage,
};
use ozone_api::expressions::{
    check_emoji, check_new_sound, check_new_sticker, check_sound_update, check_sticker_fields,
    check_upload, require_expression_create, require_expression_manage, UploadKind,
};
use ozone_api::guild::{
    blank_to_none, check_default_notifications, check_new_channel, clamp_afk_timeout,
    clamp_slowmode, clean_games, gen_code as guild_code, validate_channel_name,
    stored_games, validate_description, validate_region, validate_vanity,
};
use ozone_api::invites::{
    check_custom_code, check_not_banned, check_preview, code_from_token, counts_a_use,
    invite_expiry, preview_limited, requested_code, resolve_invite, revoke_needs_manage_guild,
    InviteUse,
};
use ozone_api::moderation::{
    ban_message_cutoff, check_leave, check_member_exists, check_nick, check_transfer,
    check_unbanned, member_list_plan, nick_permission,
};
use ozone_api::notifications::{ack_marker, ackable, plan_setting};
use ozone_api::perms::{
    CHANGE_NICKNAME, CREATE_EVENTS, CREATE_GUILD_EXPRESSIONS, DEAFEN_MEMBERS, MANAGE_EVENTS,
    MANAGE_GUILD_EXPRESSIONS, MANAGE_NICKNAMES, MOVE_MEMBERS, MUTE_MEMBERS, READ_MESSAGE_HISTORY,
    VIEW_CHANNEL,
};
use ozone_api::polls::{check_new_poll, check_vote, is_finished};
use ozone_api::profiles::{
    check_public_key, check_settings, plan_profile_update, ProfileFields, ProfileRequest,
};
use ozone_api::relationships::{
    block, check_note, friend_request, remove, FriendOutcome, Pair, Rel,
};
use ozone_api::roles::{
    check_not_everyone, new_role, plan_overwrite, plan_role_reorder, updated_role, RoleFields,
    RoleRequest,
};
use ozone_api::permissions::RolePosition;
use ozone_api::perms::{ADMINISTRATOR, BAN_MEMBERS, MANAGE_ROLES};
use ozone_api::search::MemberQuery;
use ozone_api::sfu::host_port;
use ozone_api::voice::{
    check_connected, check_voice_channel, join_flags, plan_voice_moderation, updated_flags,
    ModeratedState, VoiceFlags, VoiceFlagsRequest, VoiceModeration, VoiceModerationPlan,
};
use ozone_api::webhooks::{
    authorize_execution, check_webhook_channel, check_webhook_move, plan_execution,
};

fn err_of<T>(r: Result<T, AppError>) -> AppError {
    match r {
        Err(e) => e,
        Ok(_) => panic!("an error was expected"),
    }
}

fn none_flags() -> VoiceFlagsRequest {
    VoiceFlagsRequest { self_mute: None, self_deaf: None, self_video: None, self_stream: None }
}

#[test]
fn guild_settings_fields() {
    assert_eq!(blank_to_none("  ".to_string()), None);
    assert_eq!(blank_to_none(" a ".to_string()), Some(" a ".to_string()));
    assert!(validate_description("x".repeat(301)).is_err());
    assert_eq!(validate_description("".to_string()).ok(), Some(None));
    assert_eq!(validate_vanity(" My-Code ").ok(), Some(Some("my-code".to_string())));
    assert_eq!(validate_vanity("  ").ok(), Some(None));
    assert!(validate_vanity("a").is_err());
    assert!(validate_vanity("bad code").is_err());
    assert_eq!(check_default_notifications(1).ok(), Some(1));
    assert!(check_default_notifications(2).is_err());
    let games = clean_games(vec![" Chess ".to_string(), "".to_string(), "Go".to_string()]);
    assert_eq!(games, vec!["Go".to_string()]);
    let kept = clean_games(vec!["Chess".to_string(), "a_b-c".to_string(), "x".repeat(41)]);
    assert_eq!(kept, vec!["Chess".to_string(), "a_b-c".to_string()]);
    assert_eq!(stored_games(vec!["Go".to_string(), "bad key".to_string(), "x-1".to_string()]), "[\"Go\",\"x-1\"]");
    assert_eq!(stored_games(Vec::new()), "[]");
    assert_eq!(clamp_afk_timeout(300), 300);
}

#[test]
fn channel_creation_rules() {
    assert_eq!(validate_channel_name(" général ").ok(), Some("général".to_string()));
    assert!(validate_channel_name("").is_err());
    assert_eq!(clamp_slowmode(-5), 0);
    assert_eq!(clamp_slowmode(100_000), 21_600);
    let c = check_new_channel(" news ", 5, &None, false, Some(30)).ok().unwrap();
    assert_eq!((c.name.as_str(), c.rate_limit_per_user), ("news", 30));
    assert_eq!(err_of(check_new_channel("x", 1, &None, false, None)).message, "type de salon non supporté");
    assert_eq!(
        err_of(check_new_channel("x", 4, &None, true, None)).message,
        "une catégorie ne peut pas avoir de parent"
    );
    assert_eq!(validate_region("  ").ok(), Some(None));
    assert!(validate_region("eu west").is_err());
    assert!(check_category(Some(4)).is_ok());
    assert_eq!(err_of(check_category(Some(0))).message, "le parent n'est pas une catégorie");
    assert_eq!(err_of(check_category(None)).status, 404);
}

#[test]
fn threads_and_guild_deletion() {
    assert_eq!(check_new_thread(1, 0, " Topic ").ok(), Some("Topic".to_string()));
    assert!(check_new_thread(0, 0, "t").is_err());
    assert!(check_new_thread(1, 2, "t").is_err());
    assert!(check_new_thread(1, 5, &"x".repeat(101)).is_err());
    assert!(check_guild_delete(1, 1).is_ok());
    assert_eq!(err_of(check_guild_delete(1, 2)).status, 403);
}

#[test]
fn channel_reordering_stops_at_first_refusal() {
    let items = vec![
        ChannelPosition { id: 1, position: 0, parent_id: Some(0) },
        ChannelPosition { id: 2, position: 1, parent_id: Some(9) },
        ChannelPosition { id: 3, position: 2, parent_id: None },
    ];
    let facts = vec![
        ReorderFacts { in_guild: true, parent_kind: None },
        ReorderFacts { in_guild: true, parent_kind: Some(4) },
        ReorderFacts { in_guild: true, parent_kind: None },
    ];
    let (moves, err) = plan_channel_reorder(&items, &facts);
    assert!(err.is_none());
    assert_eq!(
        moves,
        vec![
            ChannelMove { id: 1, position: 0, parent: ParentChange::Root },
            ChannelMove { id: 2, position: 1, parent: ParentChange::Under(9) },
            ChannelMove { id: 3, position: 2, parent: ParentChange::Keep },
        ]
    );
    let facts = vec![
        ReorderFacts { in_guild: true, parent_kind: None },
        ReorderFacts { in_guild: true, parent_kind: Some(0) },
        ReorderFacts { in_guild: false, parent_kind: None },
    ];
    let (moves, err) = plan_channel_reorder(&items, &facts);
    assert_eq!(moves.len(), 1);
    assert_eq!(err.unwrap().message, "le parent n'est pas une catégorie");
    assert_eq!(visible_ids(&vec![5, 6, 7], &vec![VIEW_CHANNEL, 0, VIEW_CHANNEL | READ_MESSAGE_HISTORY]), vec![5, 7]);
}

#[test]
fn role_rules() {
    let req = RoleRequest {
        name: None,
        color: None,
        secondary_color: None,
        color_style: Some("wave".to_string()),
        hoist: None,
        mentionable: Some(true),
        permissions: Some(format!("{}", BAN_MEMBERS | ADMINISTRATOR)),
    };
    let (r, pos) = new_role(req, BAN_MEMBERS | MANAGE_ROLES, 4);
    assert_eq!(r.name, "nouveau rôle");
    assert_eq!(r.color_style, "wave");
    assert!(r.mentionable && !r.hoist);
    assert_eq!(r.permissions, BAN_MEMBERS);
    assert_eq!(pos, 5);
    let cur = RoleFields {
        name: "mods".to_string(),
        color: 7,
        secondary_color: Some(1),
        color_style: "bogus".to_string(),
        hoist: true,
        mentionable: false,
        permissions: MANAGE_ROLES,
    };
    let req = RoleRequest {
        name: None,
        color: Some(9),
        secondary_color: Some(None),
        color_style: None,
        hoist: None,
        mentionable: None,
        permissions: None,
    };
    let u = updated_role(cur, req, 0);
    assert_eq!((u.name.as_str(), u.color, u.secondary_color), ("mods", 9, None));
    assert_eq!(u.color_style, "solid");
    assert_eq!(u.permissions, MANAGE_ROLES);
    assert!(check_not_everyone(5, 5, "le rôle @everyone est implicite").is_err());
    assert!(check_not_everyone(6, 5, "x").is_ok());
    assert_eq!(plan_overwrite(0, true, Some("1032"), None, VIEW_CHANNEL | ADMINISTRATOR).ok(), Some((VIEW_CHANNEL, 0)));
    assert_eq!(err_of(plan_overwrite(2, true, None, None, 0)).message, "type de surcharge invalide (0 = rôle, 1 = membre)");
    assert_eq!(err_of(plan_overwrite(1, false, None, None, 0)).status, 404);
}

#[test]
fn role_reordering() {
    let current = vec![RolePosition { id: 10, position: 2 }, RolePosition { id: 11, position: 1 }];
    let plan = plan_role_reorder(1, true, i32::MAX, &current, &vec![11, 10]).ok().unwrap();
    assert_eq!(plan, vec![(11, 2), (10, 1)]);
    assert!(plan_role_reorder(1, true, i32::MAX, &current, &vec![1, 11, 10]).is_err());
    assert!(plan_role_reorder(1, true, i32::MAX, &current, &vec![11]).is_err());
    assert!(plan_role_reorder(1, false, 2, &current, &vec![11, 10]).is_err());
}

#[test]
fn guild_invitations() {
    let c = guild_code();
    assert!(c.len() <= 8 && c.chars().all(|ch| ch.is_ascii_alphanumeric()));
    assert_eq!(code_from_token("a-b_c1d2e3f4g5", 8), "abc1d2e3");
    assert_eq!(code_from_token("--", 8), "");
    assert_eq!(invite_expiry(0, 10).ok(), Some(Some(10_000)));
    assert_eq!(invite_expiry(0, -1).ok(), Some(None));
    assert_eq!(err_of(invite_expiry(0, 2_592_001)).message, "durée de validité trop longue (max 30 jours)");
    assert_eq!(requested_code(Some("  ")), None);
    assert_eq!(requested_code(Some(" Fun ")), Some("Fun".to_string()));
    assert_eq!(check_custom_code("Fun-1").ok(), Some("fun-1".to_string()));
    assert!(check_custom_code("no way").is_err());
    let inv = InviteUse { guild_id: 3, expires_at: Some(100), uses: 1, max_uses: 2 };
    assert_eq!(resolve_invite(Some(inv), None, 50).ok(), Some((3, false)));
    assert_eq!(err_of(resolve_invite(Some(inv), None, 101)).message, "invitation expirée");
    let used = InviteUse { uses: 2, ..inv };
    assert_eq!(err_of(resolve_invite(Some(used), None, 50)).message, "invitation épuisée");
    assert_eq!(resolve_invite(None, Some(8), 50).ok(), Some((8, true)));
    assert_eq!(err_of(resolve_invite(None, None, 50)).message, "invitation invalide");
    assert!(check_not_banned(true).is_err());
    assert!(counts_a_use(true, false));
    assert!(!counts_a_use(true, true));
    assert!(check_preview(Some(10), 11).is_err());
    assert!(preview_limited(true, false));
    assert!(!revoke_needs_manage_guild(4, 4));
}

#[test]
fn scheduled_events() {
    assert!(require_event_create(CREATE_EVENTS).is_ok());
    assert!(require_event_create(0).is_err());
    assert!(require_event_manage(CREATE_EVENTS, 5, 5).is_ok());
    assert!(require_event_manage(CREATE_EVENTS, 5, 6).is_err());
    assert!(require_event_manage(MANAGE_EVENTS, 5, 6).is_ok());
    let ev = plan_new_event(" Party ", 3, None, false, Some("  Park  "), 10, Some(20)).ok().unwrap();
    assert_eq!((ev.name.as_str(), ev.channel_id, ev.location), ("Party", None, Some("Park".to_string())));
    let ev = plan_new_event("Stage", 1, Some(7), true, None, 10, None).ok().unwrap();
    assert_eq!(ev.channel_id, Some(7));
    assert_eq!(err_of(plan_new_event("x", 4, None, false, None, 10, None)).message, "type d'événement invalide (1 = stage, 2 = vocal, 3 = externe)");
    assert_eq!(err_of(plan_new_event("x", 2, None, false, None, 10, None)).message, "un salon est requis pour ce type d'événement");
    assert_eq!(err_of(plan_new_event("x", 2, Some(1), false, None, 10, None)).message, "le salon doit appartenir à la guilde");
    assert_eq!(err_of(plan_new_event("x", 3, None, false, Some("  "), 10, None)).message, "un lieu est requis pour un événement externe");
    assert_eq!(err_of(plan_new_event("x", 3, None, false, Some("p"), 0, None)).message, "la date de début doit être valide");
    assert_eq!(err_of(plan_new_event("x", 3, None, false, Some("p"), 10, Some(10))).message, "la date de fin doit être postérieure au début");
}

#[test]
fn event_updates_stop_at_first_error() {
    let up = plan_event_update(10, None, Some(" New "), Some("d".to_string()), None, Some(3), false, Some("l".to_string()), None, None, Some(2));
    assert_eq!(up.name, Some("New".to_string()));
    assert_eq!(up.description, Some("d".to_string()));
    assert_eq!(up.channel_id, None);
    assert_eq!(up.location, None);
    assert_eq!(up.status, None);
    assert_eq!(up.error.unwrap().message, "le salon doit appartenir à la guilde");
    let up = plan_event_update(10, Some(20), None, None, None, None, false, None, Some(30), None, Some(9));
    assert_eq!(up.times, None);
    assert_eq!(up.error.unwrap().message, "la date de fin doit être postérieure au début");
    let up = plan_event_update(10, Some(20), None, None, None, None, false, None, None, Some(40), Some(2));
    assert_eq!(up.times, Some((10, Some(40))));
    assert_eq!(up.status, Some(2));
    assert!(up.error.is_none());
    let up = plan_event_update(10, None, None, None, None, None, false, None, None, None, Some(5));
    assert!(up.status.is_none() && up.error.is_some());
}

#[test]
fn member_moderation() {
    assert_eq!(nick_permission(1, 1), CHANGE_NICKNAME);
    assert_eq!(nick_permission(2, 1), MANAGE_NICKNAMES);
    assert_eq!(check_nick("  ").ok(), Some(None));
    assert_eq!(check_nick(" Neo ").ok(), Some(Some("Neo".to_string())));
    assert_eq!(err_of(check_nick(&"n".repeat(33))).message, "pseudo trop long (max 32)");
    assert!(check_member_exists(false).is_err());
    assert_eq!(ban_message_cutoff(10_000, 0), None);
    assert_eq!(ban_message_cutoff(10_000, 3), Some(7_000));
    assert_eq!(ban_message_cutoff(0, i64::MAX), Some(-i64::MAX));
    assert!(check_unbanned(0).is_err());
    assert_eq!(err_of(check_leave(Some(1), 1)).status, 403);
    assert!(check_leave(Some(1), 2).is_ok());
    assert_eq!(err_of(check_transfer(Some(1), 2, 3, true)).message, "seul le propriétaire peut transférer la guilde");
    assert_eq!(err_of(check_transfer(Some(1), 1, 1, true)).message, "vous êtes déjà le propriétaire");
    assert_eq!(err_of(check_transfer(Some(1), 1, 3, false)).message, "le nouveau propriétaire doit être membre de la guilde");
    assert!(check_transfer(Some(1), 1, 3, true).is_ok());
    let p = member_list_plan(&MemberQuery { after: Some("-5".to_string()), limit: Some(0), query: Some(" Al ".to_string()) });
    assert_eq!((p.limit, p.after, p.like.clone(), p.by_user_id), (1, Some(-5), Some("%al%".to_string()), true));
    let p = member_list_plan(&MemberQuery { after: None, limit: None, query: Some("  ".to_string()) });
    assert_eq!((p.limit, p.after, p.like, p.by_user_id), (1000, None, None, false));
}

#[test]
fn voice_rules() {
    let f = join_flags(VoiceFlagsRequest { self_mute: Some(true), ..none_flags() });
    assert_eq!(f, VoiceFlags { self_mute: true, self_deaf: false, self_video: false, self_stream: false });
    let g = updated_flags(f, VoiceFlagsRequest { self_deaf: Some(true), ..none_flags() });
    assert_eq!(g, VoiceFlags { self_mute: true, self_deaf: true, self_video: false, self_stream: false });
    assert!(check_voice_channel(Some((2, Some(5))), 5).is_ok());
    assert!(check_voice_channel(Some((13, Some(5))), 5).is_ok());
    assert_eq!(err_of(check_voice_channel(Some((0, Some(5))), 5)).status, 400);
    assert_eq!(err_of(check_voice_channel(None, 5)).status, 404);
    assert!(check_connected(Some(5), 5).is_ok());
    assert!(check_connected(Some(6), 5).is_err());
}

#[test]
fn voice_moderation() {
    let st = Some(ModeratedState { channel_id: 20, mute: false, deaf: true });
    let mute = VoiceModeration { mute: Some(true), deaf: None, channel_id: None, disconnect: None };
    assert_eq!(
        plan_voice_moderation(7, st, Some(1), MUTE_MEMBERS, mute, None, 5).ok(),
        Some(VoiceModerationPlan::Update { mute: true, deaf: true, channel_id: 20 })
    );
    assert_eq!(err_of(plan_voice_moderation(7, st, Some(1), DEAFEN_MEMBERS, mute, None, 5)).message, "permissions insuffisantes");
    assert_eq!(err_of(plan_voice_moderation(1, st, Some(1), MUTE_MEMBERS, mute, None, 5)).message, "impossible de modérer le propriétaire en vocal");
    assert_eq!(err_of(plan_voice_moderation(7, None, Some(1), MUTE_MEMBERS, mute, None, 5)).message, "ce membre n'est pas connecté au vocal");
    let kick = VoiceModeration { mute: None, deaf: None, channel_id: None, disconnect: Some(true) };
    assert_eq!(plan_voice_moderation(7, st, Some(1), MOVE_MEMBERS, kick, None, 5).ok(), Some(VoiceModerationPlan::Disconnect));
    let mv = VoiceModeration { mute: None, deaf: None, channel_id: Some(30), disconnect: None };
    assert_eq!(
        plan_voice_moderation(7, st, Some(1), MOVE_MEMBERS, mv, Some((2, Some(5))), 5).ok(),
        Some(VoiceModerationPlan::Update { mute: false, deaf: true, channel_id: 30 })
    );
    assert!(plan_voice_moderation(7, st, Some(1), MOVE_MEMBERS, mv, Some((0, Some(5))), 5).is_err());
}

#[test]
fn conversations() {
    assert_eq!(dm_recipients(1, &vec![3, 1, 2, 3]).ok(), Some(vec![2, 3]));
    assert_eq!(err_of(dm_recipients(1, &vec![1])).message, "au moins un destinataire requis");
    assert_eq!(err_of(dm_recipients(1, &(2..12).collect())).message, "un groupe est limité à 10 participants");
    assert!(dm_recipients(1, &(2..11).collect()).is_ok());
    assert_eq!(err_of(check_add_recipient(false, Some(3), true, 2)).status, 403);
    assert_eq!(err_of(check_add_recipient(true, Some(1), true, 2)).message, "opération réservée aux groupes");
    assert_eq!(err_of(check_add_recipient(true, Some(3), true, 10)).message, "groupe complet (10 participants maximum)");
    assert!(check_add_recipient(true, Some(3), true, 9).is_ok());
    assert!(check_remove_recipient(5, 5, true, Some((3, Some(1)))).is_ok());
    assert!(check_remove_recipient(5, 6, true, Some((3, Some(1)))).is_err());
    assert!(check_remove_recipient(1, 6, true, Some((3, Some(1)))).is_ok());
    assert_eq!(after_removal(1, Some(1), &vec![9, 4, 7]), GroupAfterRemoval::NewOwner(4));
    assert_eq!(after_removal(1, Some(1), &vec![]), GroupAfterRemoval::Delete);
    assert_eq!(after_removal(2, Some(1), &vec![1]), GroupAfterRemoval::Unchanged);
    assert_eq!(order_dm_channels(&vec![Some(5), None, Some(9), Some(5)]), vec![2, 0, 3, 1]);
}

#[test]
fn friendships_and_blocks() {
    let none = Pair { mine: Rel::NoRelation, theirs: Rel::NoRelation };
    let (p, o) = friend_request(1, 2, true, none).ok().unwrap();
    assert_eq!((p, o), (Pair { mine: Rel::Outgoing, theirs: Rel::Incoming }, FriendOutcome::Requested));
    let swapped = Pair { mine: p.theirs, theirs: p.mine };
    let (q, o) = friend_request(2, 1, true, swapped).ok().unwrap();
    assert_eq!((q, o), (Pair { mine: Rel::Friend, theirs: Rel::Friend }, FriendOutcome::Accepted));
    assert_eq!(friend_request(2, 1, true, q).ok().unwrap().1, FriendOutcome::AlreadyFriends);
    let b = block(1, 2, q).ok().unwrap();
    assert_eq!(b, Pair { mine: Rel::Blocked, theirs: Rel::NoRelation });
    let other_view = Pair { mine: b.theirs, theirs: b.mine };
    assert_eq!(err_of(friend_request(2, 1, true, other_view)).message, "cet utilisateur vous a bloqué");
    assert_eq!(err_of(friend_request(1, 2, true, b)).message, "vous avez bloqué cet utilisateur");
    assert_eq!(err_of(friend_request(1, 1, true, none)).message, "impossible avec soi-même");
    assert_eq!(err_of(friend_request(1, 2, false, none)).message, "utilisateur introuvable");
    assert_eq!(remove(b), none);
    assert_eq!(Rel::parse("incoming"), Rel::Incoming);
    assert_eq!(Rel::parse("?"), Rel::NoRelation);
    assert!(check_note(&"n".repeat(256)).is_ok());
    assert!(check_note(&"n".repeat(257)).is_err());
}

#[test]
fn polls_and_votes() {
    let p = check_new_poll(" Q? ", &vec![" a ".to_string(), "".to_string(), "b".to_string()], None, 1_000).ok().unwrap();
    assert_eq!(p.question, "Q?");
    assert_eq!(p.answers, vec!["a".to_string(), "b".to_string()]);
    assert_eq!(p.expires_at, Some(1_000 + 24 * 3_600_000));
    let p = check_new_poll("Q", &vec!["a".to_string()], Some(10_000), 0).ok().unwrap();
    assert_eq!(p.expires_at, Some(768 * 3_600_000));
    assert_eq!(check_new_poll("Q", &vec!["a".to_string()], Some(0), 0).ok().unwrap().expires_at, None);
    assert_eq!(err_of(check_new_poll("  ", &vec!["a".to_string()], None, 0)).message, "question invalide (1 à 300 caractères)");
    assert_eq!(err_of(check_new_poll("Q", &vec!["  ".to_string()], None, 0)).message, "entre 1 et 10 réponses");
    assert_eq!(err_of(check_new_poll("Q", &vec!["x".repeat(56)], None, 0)).message, "réponse trop longue (max 55 caractères)");
    assert!(is_finished(Some(5), 6));
    assert!(!is_finished(None, 6));
    assert_eq!(check_vote(None, 0, true, &vec![1, 2, 3], &vec![3, 1, 3]).ok(), Some(vec![1, 3]));
    assert_eq!(err_of(check_vote(Some(5), 6, true, &vec![1], &vec![1])).message, "sondage terminé");
    assert_eq!(err_of(check_vote(None, 0, true, &vec![1], &vec![2])).message, "réponse de sondage invalide");
    assert_eq!(err_of(check_vote(None, 0, false, &vec![1, 2], &vec![1, 2])).message, "ce sondage n'autorise qu'une seule réponse");
    assert_eq!(check_vote(None, 0, false, &vec![1, 2], &vec![2, 2]).ok(), Some(vec![2]));
}

#[test]
fn expressions_and_uploads() {
    assert!(require_expression_create(CREATE_GUILD_EXPRESSIONS).is_ok());
    assert!(require_expression_create(0).is_err());
    assert!(require_expression_manage(CREATE_GUILD_EXPRESSIONS, 1, 1).is_ok());
    assert!(require_expression_manage(CREATE_GUILD_EXPRESSIONS, 1, 2).is_err());
    assert!(require_expression_manage(MANAGE_GUILD_EXPRESSIONS, 1, 2).is_ok());
    assert_eq!(check_emoji(" party ", Some("img")).ok(), Some("party".to_string()));
    assert_eq!(err_of(check_emoji("party", Some(""))).message, "image_id ne peut pas être vide");
    assert_eq!(check_sticker_fields(None, None, None).ok(), Some(None));
    assert!(check_sticker_fields(Some("x"), None, None).is_err());
    assert_eq!(check_new_sticker(" Wave ", None, Some("hi"), "asset", 1).ok(), Some("Wave".to_string()));
    assert_eq!(err_of(check_new_sticker("Wave", None, None, "  ", 1)).message, "l'identifiant d'asset ne peut pas être vide");
    assert!(check_new_sticker("Wave", None, None, "a", 5).is_err());
    assert_eq!(check_new_sound(" Boom ", "s", None).ok(), Some("Boom".to_string()));
    assert_eq!(err_of(check_new_sound("Boom", "", None)).message, "sound_id ne peut pas être vide");
    assert!(check_sound_update(None, Some(&"e".repeat(65))).is_err());
    assert_eq!(check_sound_update(Some(" ab "), None).ok(), Some(Some("ab".to_string())));
    assert_eq!(err_of(check_upload(UploadKind::Image, None)).message, "aucun fichier fourni");
    assert_eq!(err_of(check_upload(UploadKind::Image, Some(&[]))).message, "fichier vide");
    assert_eq!(err_of(check_upload(UploadKind::Image, Some(b"hello"))).message, "format d'image non supporté (png/gif/webp/jpeg)");
    assert!(check_upload(UploadKind::EmojiImage, Some(b"GIF89a....")).is_ok());
    assert!(check_upload(UploadKind::Sound, Some(b"OggS....")).is_ok());
    let big = vec![0xFFu8; 600_000];
    assert_eq!(err_of(check_upload(UploadKind::EmojiImage, Some(&big))).message, "image trop volumineuse (max 512 Kio)");
}

#[test]
fn webhook_rules() {
    assert!(check_webhook_channel(0).is_err());
    assert!(check_webhook_move(2, 2).is_ok());
    assert!(check_webhook_move(3, 2).is_err());
    assert!(authorize_execution(Some("tok"), "tok").is_ok());
    assert_eq!(err_of(authorize_execution(Some("tok"), "other")).message, "webhook ou jeton invalide");
    assert_eq!(err_of(authorize_execution(None, "tok")).status, 401);
    let post = plan_execution(true, "hello \n", None, None, "Hook".to_string(), Some("av".to_string())).ok().unwrap();
    assert_eq!((post.content.as_str(), post.name.as_str(), post.avatar_id), ("hello", "Hook", Some("av".to_string())));
    let post = plan_execution(true, "x", Some(" Bot "), Some("mine".to_string()), "Hook".to_string(), None).ok().unwrap();
    assert_eq!((post.name.as_str(), post.avatar_id), ("Bot", Some("mine".to_string())));
    assert_eq!(err_of(plan_execution(false, "x", None, None, "H".to_string(), None)).status, 404);
    assert!(plan_execution(true, "   ", None, None, "H".to_string(), None).is_err());
}

#[test]
fn read_markers_and_settings() {
    assert_eq!(ack_marker(Some(10), 5), 10);
    assert_eq!(ack_marker(Some(10), 15), 15);
    assert_eq!(ack_marker(None, 3), 3);
    assert!(ackable(VIEW_CHANNEL | READ_MESSAGE_HISTORY));
    assert!(!ackable(VIEW_CHANNEL));
    assert_eq!(plan_setting(1, None, None, None, 0).ok(), Some((3, None)));
    assert_eq!(plan_setting(0, Some((2, Some(9))), None, None, 0).ok(), Some((2, Some(9))));
    assert_eq!(plan_setting(0, None, Some(1), Some(10), 1_000).ok(), Some((1, Some(11_000))));
    assert_eq!(plan_setting(0, None, None, Some(-1), 0).ok(), Some((0, Some(i64::MAX))));
    assert_eq!(plan_setting(0, Some((1, Some(9))), None, Some(0), 0).ok(), Some((1, None)));
    assert_eq!(err_of(plan_setting(0, None, Some(3), None, 0)).message, "niveau de notification invalide");
}

#[test]
fn profile_updates() {
    let cur = ProfileFields {
        display_name: Some("Old".to_string()),
        bio: None,
        pronouns: None,
        avatar_id: None,
        banner_id: None,
        accent_color: Some(5),
    };
    let req = ProfileRequest {
        display_name: Some("  ".to_string()),
        bio: Some(" hi ".to_string()),
        pronouns: None,
        avatar_id: None,
        banner_id: None,
        accent_color: None,
    };
    let p = plan_profile_update(true, cur, req).ok().unwrap();
    assert_eq!((p.display_name, p.bio, p.accent_color), (None, Some("hi".to_string()), Some(5)));
    let cur = ProfileFields { display_name: None, bio: None, pronouns: None, avatar_id: None, banner_id: None, accent_color: None };
    let req = ProfileRequest { display_name: None, bio: None, pronouns: None, avatar_id: None, banner_id: None, accent_color: Some(0x100_0000) };
    assert_eq!(err_of(plan_profile_update(true, cur, req)).message, "couleur d'accent invalide (0..=0xFFFFFF)");
    let cur = ProfileFields { display_name: None, bio: None, pronouns: None, avatar_id: None, banner_id: None, accent_color: None };
    let req = ProfileRequest { display_name: None, bio: None, pronouns: None, avatar_id: None, banner_id: None, accent_color: None };
    assert_eq!(err_of(plan_profile_update(false, cur, req)).status, 429);
    assert_eq!(check_public_key(" key ").ok(), Some("key".to_string()));
    assert!(check_public_key("  ").is_err());
    assert!(check_settings(false, 2).is_err());
    assert!(check_settings(true, 65_537).is_err());
    assert!(check_settings(true, 65_536).is_ok());
}

#[test]
fn attachment_rules() {
    assert_eq!(add_chunk(10, 5).ok(), Some(15));
    assert_eq!(err_of(add_chunk(MAX_ATTACHMENT_SIZE, 1)).message, "fichier trop volumineux (max 1 Go)");
    assert_eq!(err_of(check_uploaded(false, 0)).message, "aucun fichier fourni");
    assert_eq!(err_of(check_uploaded(true, 0)).message, "fichier vide");
    assert!(check_uploaded(true, 1).is_ok());
    assert_eq!(attachment_url(12, "a.png"), "/attachments/12/a.png");
    assert_eq!(disposition("image/png"), "inline");
    assert_eq!(disposition("text/html"), "attachment");
    assert_eq!(disposition("text/plain"), "inline");
    assert_eq!(content_disposition("video/mp4", "v.mp4"), "inline; filename=\"v.mp4\"");
    assert_eq!(stored_names(None, None), ("fichier".to_string(), "application/octet-stream".to_string()));
    assert_eq!(stored_names(Some("a/b".to_string()), Some("text/plain".to_string())), ("ab".to_string(), "text/plain".to_string()));
}

#[test]
fn media_node_address() {
    assert_eq!(host_port("http://127.0.0.1:8081"), ("127.0.0.1".to_string(), 8081));
    assert_eq!(host_port("https://sfu.example/path:1"), ("sfu.example".to_string(), 80));
    assert_eq!(host_port("host:notaport/x"), ("host".to_string(), 80));
    assert_eq!(host_port("plain"), ("plain".to_string(), 80));
    assert_eq!(host_port("http://[::1]:9000"), ("[::1]".to_string(), 9000));
}

#[test]
fn clock_readings() {
    assert_eq!(timestamp_of(None), 0);
    assert_eq!(timestamp_of(Some(1_700_000_000_000)), 1_700_000_000_000);
    assert!(now_ms() > 1_600_000_000_000);
}
