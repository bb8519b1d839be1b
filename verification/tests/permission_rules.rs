use ozone_api::error::AppError;
use ozone_api::permissions::{
    channel_permissions, check_member_action, check_role_rank, dm_permissions, grantable_bits,
    guild_permissions, highest_role_position, overwrite_bits, require_channel_perm,
    require_guild_perm, ChannelAccess, MemberAction, Overwrite, RoleGrant, RolePosition, DM_PERMS,
};
use ozone_api::perms::{
    has, ADMINISTRATOR, ALL, BAN_MEMBERS, KICK_MEMBERS, MANAGE_CHANNELS, MANAGE_MESSAGES,
    READ_MESSAGE_HISTORY, SEND_MESSAGES, VIEW_CHANNEL,
};

fn err_of<T>(r: Result<T, AppError>) -> AppError {
    match r {
        Err(e) => e,
        Ok(_) => panic!("an error was expected"),
    }
}

const GUILD: i64 = 100;
const OWNER: i64 = 1;
const MEMBER: i64 = 2;
const MODS: i64 = 300;

fn roles() -> Vec<RoleGrant> {
    vec![
        RoleGrant { id: GUILD, permissions: VIEW_CHANNEL | SEND_MESSAGES },
        RoleGrant { id: MODS, permissions: KICK_MEMBERS | MANAGE_MESSAGES },
    ]
}

#[test]
fn has_needs_every_bit() {
    assert!(has(VIEW_CHANNEL | SEND_MESSAGES, VIEW_CHANNEL));
    assert!(has(VIEW_CHANNEL | SEND_MESSAGES, VIEW_CHANNEL | SEND_MESSAGES));
    assert!(!has(VIEW_CHANNEL, VIEW_CHANNEL | SEND_MESSAGES));
    assert!(has(0, 0));
}

#[test]
fn owner_holds_every_permission() {
    let p = guild_permissions(OWNER, OWNER, true, 0, &roles(), &vec![]);
    assert_eq!(p, ALL);
}

#[test]
fn non_member_holds_nothing() {
    let p = guild_permissions(OWNER, MEMBER, false, VIEW_CHANNEL, &roles(), &vec![MODS]);
    assert_eq!(p, 0);
}

#[test]
fn member_gets_everyone_and_role_bits() {
    let p = guild_permissions(OWNER, MEMBER, true, VIEW_CHANNEL, &roles(), &vec![MODS]);
    assert_eq!(p, VIEW_CHANNEL | KICK_MEMBERS | MANAGE_MESSAGES);
}

#[test]
fn administrator_role_grants_all() {
    let rs = vec![RoleGrant { id: 7, permissions: ADMINISTRATOR }];
    let p = guild_permissions(OWNER, MEMBER, true, 0, &rs, &vec![7]);
    assert_eq!(p, ALL);
}

#[test]
fn channel_overwrites_apply_in_order() {
    let base = VIEW_CHANNEL | SEND_MESSAGES;
    let ows = vec![
        Overwrite { target_id: GUILD, target_type: 0, allow: 0, deny: SEND_MESSAGES },
        Overwrite { target_id: MODS, target_type: 0, allow: SEND_MESSAGES, deny: 0 },
    ];
    let with_role = channel_permissions(base, GUILD, MEMBER, &vec![MODS], &ows);
    assert_eq!(with_role, VIEW_CHANNEL | SEND_MESSAGES);
    let without_role = channel_permissions(base, GUILD, MEMBER, &vec![], &ows);
    assert_eq!(without_role, VIEW_CHANNEL);
}

#[test]
fn member_overwrite_has_last_word() {
    let base = VIEW_CHANNEL | SEND_MESSAGES;
    let ows = vec![
        Overwrite { target_id: MEMBER, target_type: 1, allow: 0, deny: SEND_MESSAGES },
        Overwrite { target_id: MODS, target_type: 0, allow: SEND_MESSAGES, deny: 0 },
    ];
    let p = channel_permissions(base, GUILD, MEMBER, &vec![MODS], &ows);
    assert_eq!(p, VIEW_CHANNEL);
}

#[test]
fn hidden_channel_gives_nothing() {
    let ows = vec![Overwrite { target_id: GUILD, target_type: 0, allow: 0, deny: VIEW_CHANNEL }];
    let p = channel_permissions(VIEW_CHANNEL | SEND_MESSAGES, GUILD, MEMBER, &vec![], &ows);
    assert_eq!(p, 0);
    let owner_view = channel_permissions(ALL, GUILD, OWNER, &vec![], &ows);
    assert_eq!(owner_view, ALL);
}

#[test]
fn dm_block_removes_sending() {
    assert_eq!(dm_permissions(false, 1, false), 0);
    assert_eq!(dm_permissions(true, 1, false), DM_PERMS);
    let blocked = dm_permissions(true, 1, true);
    assert!(has(blocked, VIEW_CHANNEL | READ_MESSAGE_HISTORY));
    assert!(!has(blocked, SEND_MESSAGES));
    assert_eq!(dm_permissions(true, 3, true), DM_PERMS);
}

#[test]
fn highest_position_of_member_and_owner() {
    let rs = vec![RolePosition { id: 5, position: 3 }, RolePosition { id: 6, position: 8 }];
    assert_eq!(highest_role_position(OWNER, MEMBER, &rs, &vec![5, 6]), 8);
    assert_eq!(highest_role_position(OWNER, MEMBER, &rs, &vec![5]), 3);
    assert_eq!(highest_role_position(OWNER, MEMBER, &rs, &vec![]), 0);
    assert_eq!(highest_role_position(OWNER, OWNER, &rs, &vec![]), i32::MAX);
}

#[test]
fn guild_permission_errors() {
    let e = err_of(require_guild_perm(None, MEMBER, true, 0, &roles(), &vec![], VIEW_CHANNEL));
    assert_eq!(e.status, 404);
    assert_eq!(e.message, "guilde introuvable");
    let e = err_of(require_guild_perm(Some(OWNER), MEMBER, true, VIEW_CHANNEL, &roles(), &vec![], BAN_MEMBERS));
    assert_eq!(e.status, 403);
    assert_eq!(e.message, "permissions insuffisantes");
    let ok = require_guild_perm(Some(OWNER), MEMBER, true, VIEW_CHANNEL, &roles(), &vec![MODS], KICK_MEMBERS);
    assert_eq!(ok.ok(), Some(VIEW_CHANNEL | KICK_MEMBERS | MANAGE_MESSAGES));
}

#[test]
fn channel_permission_errors() {
    let e = err_of(require_channel_perm(&ChannelAccess::Missing, MEMBER, VIEW_CHANNEL));
    assert_eq!(e.status, 404);
    assert_eq!(e.message, "salon introuvable");
    let dm = ChannelAccess::Dm { is_recipient: false, kind: 1, blocked: false };
    let e = err_of(require_channel_perm(&dm, MEMBER, VIEW_CHANNEL));
    assert_eq!(e.message, "accès refusé à ce message privé");
    let dm = ChannelAccess::Dm { is_recipient: true, kind: 1, blocked: false };
    assert_eq!(require_channel_perm(&dm, MEMBER, VIEW_CHANNEL).ok(), Some((0, 0, DM_PERMS)));
    let g = ChannelAccess::Guild {
        guild_id: GUILD,
        owner: Some(OWNER),
        is_member: true,
        everyone: VIEW_CHANNEL,
        roles: roles(),
        member_roles: vec![],
        overwrites: vec![],
    };
    let e = err_of(require_channel_perm(&g, MEMBER, MANAGE_CHANNELS));
    assert_eq!(e.message, "permissions insuffisantes");
    assert_eq!(require_channel_perm(&g, MEMBER, VIEW_CHANNEL).ok(), Some((GUILD, OWNER, VIEW_CHANNEL)));
}

#[test]
fn granted_bits_never_exceed_the_actor() {
    assert_eq!(grantable_bits(VIEW_CHANNEL | BAN_MEMBERS, VIEW_CHANNEL), VIEW_CHANNEL);
    assert_eq!(overwrite_bits(ADMINISTRATOR | VIEW_CHANNEL, ALL), VIEW_CHANNEL);
}

#[test]
fn member_actions_respect_hierarchy() {
    let e = err_of(check_member_action(MemberAction::Ban, OWNER, OWNER, 10, 0));
    assert_eq!(e.message, "impossible de bannir le propriétaire");
    let e = err_of(check_member_action(MemberAction::Kick, OWNER, OWNER, 10, 0));
    assert_eq!(e.message, "impossible d'expulser le propriétaire");
    let e = err_of(check_member_action(MemberAction::Timeout, OWNER, OWNER, 10, 0));
    assert_eq!(e.message, "impossible de mettre en sourdine le propriétaire");
    let e = err_of(check_member_action(MemberAction::Kick, OWNER, MEMBER, 3, 3));
    assert_eq!(e.message, "ce membre est au-dessus ou égal à vous");
    assert!(check_member_action(MemberAction::Kick, OWNER, MEMBER, 4, 3).is_ok());
    assert!(check_role_rank(2, 5).is_err());
    assert!(check_role_rank(6, 5).is_ok());
}
