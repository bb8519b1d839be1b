//! Effective permissions: guild base permissions, then channel overwrites, and the
//! fixed permission set of direct-message channels.
//!
//! The database rows the computation reads are handed in as plain values; every
//! function here is a pure function of them.

use vstd::prelude::*;
use crate::error::{AppError, is_forbidden, is_not_found};
use crate::perms::{
    ADD_REACTIONS, ADMINISTRATOR, ALL, ATTACH_FILES, EMBED_LINKS, MENTION_EVERYONE, PIN_MESSAGES,
    READ_MESSAGE_HISTORY, SEND_MESSAGES, SEND_VOICE_MESSAGES, USE_EXTERNAL_EMOJIS,
    USE_EXTERNAL_STICKERS, VIEW_CHANNEL, has_spec,
};

verus! {

/// A guild role as read for permission computation: its id and permission bits.
#[derive(Clone, Copy, Debug)]
pub struct RoleGrant {
    pub id: i64,
    pub permissions: u64,
}

/// A guild role as read for hierarchy checks: its id and position.
#[derive(Clone, Copy, Debug)]
pub struct RolePosition {
    pub id: i64,
    pub position: i64,
}

/// A channel permission overwrite. `target_type` is `0` for a role and `1` for a member.
#[derive(Clone, Copy, Debug)]
pub struct Overwrite {
    pub target_id: i64,
    pub target_type: i64,
    pub allow: u64,
    pub deny: u64,
}

/// Target type of an overwrite that applies to a role.
pub const OVERWRITE_ROLE: i64 = 0;
/// Target type of an overwrite that applies to one member.
pub const OVERWRITE_MEMBER: i64 = 1;

/// Permissions granted in a direct-message or group channel.
pub const DM_PERMS: u64 = VIEW_CHANNEL | SEND_MESSAGES | READ_MESSAGE_HISTORY | ADD_REACTIONS
    | EMBED_LINKS | ATTACH_FILES | USE_EXTERNAL_EMOJIS | USE_EXTERNAL_STICKERS | MENTION_EVERYONE
    | PIN_MESSAGES | SEND_VOICE_MESSAGES;

/// Bits withdrawn in a one-to-one DM when either side blocked the other.
pub const DM_BLOCKED_BITS: u64 = SEND_MESSAGES | SEND_VOICE_MESSAGES | ADD_REACTIONS;

/// Channel type of a one-to-one direct message.
pub const DM_KIND_DIRECT: i64 = 1;

/// Applies one overwrite step: remove `deny`, then add `allow`.
pub open spec fn apply_overwrite(p: u64, allow: u64, deny: u64) -> u64 {
    (p & !deny) | allow
}

/// Union of the permissions of the roles in `roles` whose id is in `member_roles`.
pub open spec fn role_union(roles: Seq<RoleGrant>, member_roles: Seq<i64>) -> u64
    decreases roles.len(),
{
    if roles.len() == 0 {
        0
    } else {
        let rest = role_union(roles.drop_last(), member_roles);
        if member_roles.contains(roles.last().id) {
            rest | roles.last().permissions
        } else {
            rest
        }
    }
}

/// Base permissions of `user_id` in a guild owned by `owner_id`.
///
/// The owner has every permission; a non-member has none; a member has the `@everyone`
/// permissions joined with those of their roles, and every permission when that set
/// holds `ADMINISTRATOR`.
pub open spec fn guild_permissions_spec(
    owner_id: i64,
    user_id: i64,
    is_member: bool,
    everyone: u64,
    roles: Seq<RoleGrant>,
    member_roles: Seq<i64>,
) -> u64 {
    if owner_id == user_id {
        ALL
    } else if !is_member {
        0
    } else {
        let acc = everyone | role_union(roles, member_roles);
        if acc & ADMINISTRATOR != 0 {
            ALL
        } else {
            acc
        }
    }
}

/// The overwrite targets the `@everyone` role of `guild_id`.
pub open spec fn is_everyone_overwrite(o: Overwrite, guild_id: i64) -> bool {
    o.target_type == OVERWRITE_ROLE && o.target_id == guild_id
}

/// The overwrite targets one of the member's roles (other than `@everyone`).
pub open spec fn is_role_overwrite(o: Overwrite, guild_id: i64, member_roles: Seq<i64>) -> bool {
    o.target_type == OVERWRITE_ROLE && o.target_id != guild_id && member_roles.contains(o.target_id)
}

/// The overwrite targets the member `user_id` themself.
pub open spec fn is_member_overwrite(o: Overwrite, user_id: i64) -> bool {
    o.target_type == OVERWRITE_MEMBER && o.target_id == user_id
}

/// Applies, in order, the `@everyone` overwrites of `ows` to `p`.
pub open spec fn apply_everyone(p: u64, ows: Seq<Overwrite>, guild_id: i64) -> u64
    decreases ows.len(),
{
    if ows.len() == 0 {
        p
    } else {
        let q = apply_everyone(p, ows.drop_last(), guild_id);
        let o = ows.last();
        if is_everyone_overwrite(o, guild_id) {
            apply_overwrite(q, o.allow, o.deny)
        } else {
            q
        }
    }
}

/// Union of the `allow` bits of the member's role overwrites.
pub open spec fn role_allow(ows: Seq<Overwrite>, guild_id: i64, member_roles: Seq<i64>) -> u64
    decreases ows.len(),
{
    if ows.len() == 0 {
        0
    } else {
        let rest = role_allow(ows.drop_last(), guild_id, member_roles);
        if is_role_overwrite(ows.last(), guild_id, member_roles) {
            rest | ows.last().allow
        } else {
            rest
        }
    }
}

/// Union of the `deny` bits of the member's role overwrites.
pub open spec fn role_deny(ows: Seq<Overwrite>, guild_id: i64, member_roles: Seq<i64>) -> u64
    decreases ows.len(),
{
    if ows.len() == 0 {
        0
    } else {
        let rest = role_deny(ows.drop_last(), guild_id, member_roles);
        if is_role_overwrite(ows.last(), guild_id, member_roles) {
            rest | ows.last().deny
        } else {
            rest
        }
    }
}

/// Applies, in order, the member overwrites of `ows` for `user_id` to `p`.
pub open spec fn apply_member(p: u64, ows: Seq<Overwrite>, user_id: i64) -> u64
    decreases ows.len(),
{
    if ows.len() == 0 {
        p
    } else {
        let q = apply_member(p, ows.drop_last(), user_id);
        let o = ows.last();
        if is_member_overwrite(o, user_id) {
            apply_overwrite(q, o.allow, o.deny)
        } else {
            q
        }
    }
}

/// Permissions after the three overwrite stages, before the `VIEW_CHANNEL` gate.
pub open spec fn overwritten(
    base: u64,
    guild_id: i64,
    user_id: i64,
    member_roles: Seq<i64>,
    ows: Seq<Overwrite>,
) -> u64 {
    let p1 = apply_everyone(base, ows, guild_id);
    let p2 = apply_overwrite(
        p1,
        role_allow(ows, guild_id, member_roles),
        role_deny(ows, guild_id, member_roles),
    );
    apply_member(p2, ows, user_id)
}

/// Effective permissions in a guild channel, from the guild base permissions `base`.
///
/// A base of `ALL` is kept. Otherwise the `@everyone` overwrites apply first, then the
/// union of the member's role overwrites, then the member's own overwrites; a result
/// without `VIEW_CHANNEL` becomes `0` (the channel is invisible).
pub open spec fn channel_permissions_spec(
    base: u64,
    guild_id: i64,
    user_id: i64,
    member_roles: Seq<i64>,
    ows: Seq<Overwrite>,
) -> u64 {
    if base == ALL {
        ALL
    } else {
        let p = overwritten(base, guild_id, user_id, member_roles, ows);
        if p & VIEW_CHANNEL == 0 {
            0
        } else {
            p
        }
    }
}

/// Permissions in a DM or group channel.
pub open spec fn dm_permissions_spec(is_recipient: bool, kind: i64, blocked: bool) -> u64 {
    if !is_recipient {
        0
    } else if kind == DM_KIND_DIRECT && blocked {
        DM_PERMS & !DM_BLOCKED_BITS
    } else {
        DM_PERMS
    }
}

/// Largest position among the roles of `roles` whose id is in `member_roles` (at least 0).
pub open spec fn max_member_position(roles: Seq<RolePosition>, member_roles: Seq<i64>) -> int
    decreases roles.len(),
{
    if roles.len() == 0 {
        0
    } else {
        let rest = max_member_position(roles.drop_last(), member_roles);
        let r = roles.last();
        if member_roles.contains(r.id) && (r.position as i32) > rest {
            r.position as i32 as int
        } else {
            rest
        }
    }
}

/// Position of the highest role of a member; the owner ranks above every role.
pub open spec fn highest_role_position_spec(
    owner_id: i64,
    user_id: i64,
    roles: Seq<RolePosition>,
    member_roles: Seq<i64>,
) -> int {
    if owner_id == user_id {
        i32::MAX as int
    } else if member_roles.len() == 0 {
        0
    } else {
        max_member_position(roles, member_roles)
    }
}

/// Whether `ids` holds `x`.
pub fn contains_id(ids: &Vec<i64>, x: i64) -> (r: bool)
    ensures
        r == ids@.contains(x),
{
    let mut i: usize = 0;
    while i < ids.len()
        invariant
            0 <= i <= ids.len(),
            forall|j: int| 0 <= j < i ==> ids@[j] != x,
        decreases ids.len() - i,
    {
        if ids[i] == x {
            return true;
        }
        i = i + 1;
    }
    false
}

/// Base permissions of `user_id` in a guild (see [`guild_permissions_spec`]).
pub fn guild_permissions(
    owner_id: i64,
    user_id: i64,
    is_member: bool,
    everyone: u64,
    roles: &Vec<RoleGrant>,
    member_roles: &Vec<i64>,
) -> (r: u64)
    ensures
        r == guild_permissions_spec(owner_id, user_id, is_member, everyone, roles@, member_roles@),
{
    if owner_id == user_id {
        return ALL;
    }
    if !is_member {
        return 0;
    }
    let mut union: u64 = 0;
    let mut i: usize = 0;
    while i < roles.len()
        invariant
            0 <= i <= roles.len(),
            union == role_union(roles@.take(i as int), member_roles@),
        decreases roles.len() - i,
    {
        let r = roles[i];
        assert(roles@.take(i + 1).drop_last() == roles@.take(i as int));
        if contains_id(member_roles, r.id) {
            union = union | r.permissions;
        }
        i = i + 1;
    }
    assert(roles@.take(roles.len() as int) == roles@);
    let acc = everyone | union;
    if acc & ADMINISTRATOR != 0 {
        ALL
    } else {
        acc
    }
}

/// Effective permissions in a guild channel (see [`channel_permissions_spec`]).
pub fn channel_permissions(
    base: u64,
    guild_id: i64,
    user_id: i64,
    member_roles: &Vec<i64>,
    ows: &Vec<Overwrite>,
) -> (r: u64)
    ensures
        r == channel_permissions_spec(base, guild_id, user_id, member_roles@, ows@),
{
    if base == ALL {
        return ALL;
    }
    let n = ows.len();
    let mut p: u64 = base;
    let mut i: usize = 0;
    while i < n
        invariant
            n == ows.len(),
            0 <= i <= n,
            p == apply_everyone(base, ows@.take(i as int), guild_id),
        decreases n - i,
    {
        let o = ows[i];
        assert(ows@.take(i + 1).drop_last() == ows@.take(i as int));
        if o.target_type == OVERWRITE_ROLE && o.target_id == guild_id {
            p = (p & !o.deny) | o.allow;
        }
        i = i + 1;
    }
    let ghost p1 = p;
    let mut allow: u64 = 0;
    let mut deny: u64 = 0;
    i = 0;
    while i < n
        invariant
            n == ows.len(),
            0 <= i <= n,
            allow == role_allow(ows@.take(i as int), guild_id, member_roles@),
            deny == role_deny(ows@.take(i as int), guild_id, member_roles@),
        decreases n - i,
    {
        let o = ows[i];
        assert(ows@.take(i + 1).drop_last() == ows@.take(i as int));
        if o.target_type == OVERWRITE_ROLE && o.target_id != guild_id && contains_id(
            member_roles,
            o.target_id,
        ) {
            allow = allow | o.allow;
            deny = deny | o.deny;
        }
        i = i + 1;
    }
    p = (p & !deny) | allow;
    let ghost p2 = p;
    i = 0;
    while i < n
        invariant
            n == ows.len(),
            0 <= i <= n,
            p == apply_member(p2, ows@.take(i as int), user_id),
        decreases n - i,
    {
        let o = ows[i];
        assert(ows@.take(i + 1).drop_last() == ows@.take(i as int));
        if o.target_type == OVERWRITE_MEMBER && o.target_id == user_id {
            p = (p & !o.deny) | o.allow;
        }
        i = i + 1;
    }
    assert(ows@.take(n as int) == ows@);
    if p & VIEW_CHANNEL == 0 {
        0
    } else {
        p
    }
}

/// Permissions in a DM or group channel (see [`dm_permissions_spec`]).
pub fn dm_permissions(is_recipient: bool, kind: i64, blocked: bool) -> (r: u64)
    ensures
        r == dm_permissions_spec(is_recipient, kind, blocked),
{
    if !is_recipient {
        return 0;
    }
    if kind == DM_KIND_DIRECT && blocked {
        DM_PERMS & !DM_BLOCKED_BITS
    } else {
        DM_PERMS
    }
}

/// Position of the highest role of a member (see [`highest_role_position_spec`]).
pub fn highest_role_position(
    owner_id: i64,
    user_id: i64,
    roles: &Vec<RolePosition>,
    member_roles: &Vec<i64>,
) -> (r: i32)
    ensures
        r as int == highest_role_position_spec(owner_id, user_id, roles@, member_roles@),
{
    if owner_id == user_id {
        return i32::MAX;
    }
    if member_roles.len() == 0 {
        return 0;
    }
    let mut max: i32 = 0;
    let mut i: usize = 0;
    while i < roles.len()
        invariant
            0 <= i <= roles.len(),
            max as int == max_member_position(roles@.take(i as int), member_roles@),
        decreases roles.len() - i,
    {
        let r = roles[i];
        assert(roles@.take(i + 1).drop_last() == roles@.take(i as int));
        let pos = r.position as i32;
        if contains_id(member_roles, r.id) && pos > max {
            max = pos;
        }
        i = i + 1;
    }
    assert(roles@.take(roles.len() as int) == roles@);
    max
}

/// What is known of a channel for an access check: absent, a guild channel with the
/// rows its permissions are computed from, or a DM/group channel.
pub enum ChannelAccess {
    Missing,
    Guild {
        guild_id: i64,
        /// Owner of the guild (`None` when the guild row is gone).
        owner: Option<i64>,
        is_member: bool,
        everyone: u64,
        roles: Vec<RoleGrant>,
        member_roles: Vec<i64>,
        overwrites: Vec<Overwrite>,
    },
    Dm { is_recipient: bool, kind: i64, blocked: bool },
}

/// Outcome of [`require_guild_perm`] for the given rows.
pub open spec fn require_guild_perm_spec(
    owner: Option<i64>,
    user_id: i64,
    is_member: bool,
    everyone: u64,
    roles: Seq<RoleGrant>,
    member_roles: Seq<i64>,
    needed: u64,
    r: Result<u64, AppError>,
) -> bool {
    match owner {
        None => r is Err && is_not_found(r->Err_0, "guilde introuvable"@),
        Some(o) => {
            let p = guild_permissions_spec(o, user_id, is_member, everyone, roles, member_roles);
            if has_spec(p, needed) {
                r == Ok::<u64, AppError>(p)
            } else {
                r is Err && is_forbidden(r->Err_0, "permissions insuffisantes"@)
            }
        },
    }
}

/// Requires the guild permission `needed`; answers the computed permissions.
/// A missing guild is 404, a missing permission 403.
pub fn require_guild_perm(
    owner: Option<i64>,
    user_id: i64,
    is_member: bool,
    everyone: u64,
    roles: &Vec<RoleGrant>,
    member_roles: &Vec<i64>,
    needed: u64,
) -> (r: Result<u64, AppError>)
    ensures
        require_guild_perm_spec(
            owner,
            user_id,
            is_member,
            everyone,
            roles@,
            member_roles@,
            needed,
            r,
        ),
{
    match owner {
        None => Err(AppError::not_found("guilde introuvable")),
        Some(o) => {
            let p = guild_permissions(o, user_id, is_member, everyone, roles, member_roles);
            if !crate::perms::has(p, needed) {
                return Err(AppError::forbidden("permissions insuffisantes"));
            }
            Ok(p)
        },
    }
}

/// Permissions granted by `access` to `user_id`, when the channel (and guild) exist.
pub open spec fn channel_access_perms(access: ChannelAccess, user_id: i64) -> u64 {
    match access {
        ChannelAccess::Missing => 0,
        ChannelAccess::Guild {
            guild_id,
            owner,
            is_member,
            everyone,
            roles,
            member_roles,
            overwrites,
        } => channel_permissions_spec(
            guild_permissions_spec(owner->0, user_id, is_member, everyone, roles@, member_roles@),
            guild_id,
            user_id,
            member_roles@,
            overwrites@,
        ),
        ChannelAccess::Dm { is_recipient, kind, blocked } => dm_permissions_spec(
            is_recipient,
            kind,
            blocked,
        ),
    }
}

/// Outcome of [`require_channel_perm`]: `(guild_id, owner_id, permissions)`, with `0` for
/// the guild and owner of a DM channel.
pub open spec fn require_channel_perm_spec(
    access: ChannelAccess,
    user_id: i64,
    needed: u64,
    r: Result<(i64, i64, u64), AppError>,
) -> bool {
    let p = channel_access_perms(access, user_id);
    match access {
        ChannelAccess::Missing => r is Err && is_not_found(r->Err_0, "salon introuvable"@),
        ChannelAccess::Guild { guild_id, owner, .. } => match owner {
            None => r is Err && is_not_found(r->Err_0, "guilde introuvable"@),
            Some(o) => if has_spec(p, needed) {
                r == Ok::<(i64, i64, u64), AppError>((guild_id, o, p))
            } else {
                r is Err && is_forbidden(r->Err_0, "permissions insuffisantes"@)
            },
        },
        ChannelAccess::Dm { .. } => if has_spec(p, needed) {
            r == Ok::<(i64, i64, u64), AppError>((0, 0, p))
        } else {
            r is Err && is_forbidden(r->Err_0, "accès refusé à ce message privé"@)
        },
    }
}

/// Requires the channel permission `needed` in a guild channel or a DM channel.
pub fn require_channel_perm(access: &ChannelAccess, user_id: i64, needed: u64) -> (r: Result<
    (i64, i64, u64),
    AppError,
>)
    ensures
        require_channel_perm_spec(*access, user_id, needed, r),
{
    match access {
        ChannelAccess::Missing => Err(AppError::not_found("salon introuvable")),
        ChannelAccess::Guild {
            guild_id,
            owner,
            is_member,
            everyone,
            roles,
            member_roles,
            overwrites,
        } => match owner {
            None => Err(AppError::not_found("guilde introuvable")),
            Some(o) => {
                let base = guild_permissions(
                    *o,
                    user_id,
                    *is_member,
                    *everyone,
                    roles,
                    member_roles,
                );
                let p = channel_permissions(base, *guild_id, user_id, member_roles, overwrites);
                if !crate::perms::has(p, needed) {
                    return Err(AppError::forbidden("permissions insuffisantes"));
                }
                Ok((*guild_id, *o, p))
            },
        },
        ChannelAccess::Dm { is_recipient, kind, blocked } => {
            let p = dm_permissions(*is_recipient, *kind, *blocked);
            if !crate::perms::has(p, needed) {
                return Err(AppError::forbidden("accès refusé à ce message privé"));
            }
            Ok((0, 0, p))
        },
    }
}

/// Bits that an overwrite set by `actor` may allow or deny: only what the actor holds,
/// never `ADMINISTRATOR`.
pub fn overwrite_bits(requested: u64, actor: u64) -> (r: u64)
    ensures
        r == requested & (actor & !ADMINISTRATOR),
        r & !actor == 0,
        r & ADMINISTRATOR == 0,
{
    let r = requested & (actor & !ADMINISTRATOR);
    assert(r == requested & (actor & !0x8u64) ==> r & !actor == 0 && r & 0x8u64 == 0)
        by (bit_vector);
    r
}

/// Bits that a role created or edited by `actor` may carry: only what the actor holds.
pub fn grantable_bits(requested: u64, actor: u64) -> (r: u64)
    ensures
        r == requested & actor,
        r & !actor == 0,
{
    let r = requested & actor;
    assert(r == requested & actor ==> r & !actor == 0) by (bit_vector);
    r
}

/// Action of a moderator on another member.
#[derive(Clone, Copy, Debug, PartialEq, Eq)]
pub enum MemberAction {
    Kick,
    Ban,
    Timeout,
}

/// Outcome of [`check_member_action`].
pub open spec fn check_member_action_spec(
    action: MemberAction,
    owner_id: i64,
    target_id: i64,
    actor_pos: i32,
    target_pos: i32,
    r: Result<(), AppError>,
) -> bool {
    if target_id == owner_id {
        r is Err && is_forbidden(
            r->Err_0,
            match action {
                MemberAction::Kick => "impossible d'expulser le propriétaire"@,
                MemberAction::Ban => "impossible de bannir le propriétaire"@,
                MemberAction::Timeout => "impossible de mettre en sourdine le propriétaire"@,
            },
        )
    } else if actor_pos <= target_pos {
        r is Err && is_forbidden(r->Err_0, "ce membre est au-dessus ou égal à vous"@)
    } else {
        r is Ok
    }
}

/// Hierarchy check of a kick, ban or timeout: the owner is out of reach, and the actor's highest
/// role must rank strictly above the target's.
pub fn check_member_action(
    action: MemberAction,
    owner_id: i64,
    target_id: i64,
    actor_pos: i32,
    target_pos: i32,
) -> (r: Result<(), AppError>)
    ensures
        check_member_action_spec(action, owner_id, target_id, actor_pos, target_pos, r),
{
    if target_id == owner_id {
        return Err(
            match action {
                MemberAction::Kick => AppError::forbidden("impossible d'expulser le propriétaire"),
                MemberAction::Ban => AppError::forbidden("impossible de bannir le propriétaire"),
                MemberAction::Timeout => AppError::forbidden("impossible de mettre en sourdine le propriétaire"),
            },
        );
    }
    if actor_pos <= target_pos {
        return Err(AppError::forbidden("ce membre est au-dessus ou égal à vous"));
    }
    Ok(())
}

/// Hierarchy check of a role edit: the role must rank strictly below the actor's highest.
pub fn check_role_rank(actor_pos: i32, role_pos: i32) -> (r: Result<(), AppError>)
    ensures
        actor_pos <= role_pos <==> r is Err,
        r is Err ==> is_forbidden(r->Err_0, "ce rôle est au-dessus ou égal au vôtre"@),
{
    if actor_pos <= role_pos {
        return Err(AppError::forbidden("ce rôle est au-dessus ou égal au vôtre"));
    }
    Ok(())
}

/// Every role of `roles` held by the member contributes all its bits to `role_union`.
pub proof fn lemma_role_union_includes(roles: Seq<RoleGrant>, member_roles: Seq<i64>, i: int)
    requires
        0 <= i < roles.len(),
        member_roles.contains(roles[i].id),
    ensures
        role_union(roles, member_roles) & roles[i].permissions == roles[i].permissions,
    decreases roles.len(),
{
    let rest = role_union(roles.drop_last(), member_roles);
    let x = roles[i].permissions;
    if i == roles.len() - 1 {
        assert((rest | x) & x == x) by (bit_vector);
    } else {
        lemma_role_union_includes(roles.drop_last(), member_roles, i);
        assert(roles.drop_last()[i] == roles[i]);
        let y = roles.last().permissions;
        assert(rest & x == x ==> (rest | y) & x == x) by (bit_vector);
    }
}

/// The guild owner holds every permission, in the guild and in each of its channels.
pub proof fn law_owner_has_all(
    owner_id: i64,
    is_member: bool,
    everyone: u64,
    roles: Seq<RoleGrant>,
    member_roles: Seq<i64>,
    guild_id: i64,
    ows: Seq<Overwrite>,
)
    ensures
        guild_permissions_spec(owner_id, owner_id, is_member, everyone, roles, member_roles)
            == ALL,
        channel_permissions_spec(
            guild_permissions_spec(owner_id, owner_id, is_member, everyone, roles, member_roles),
            guild_id,
            owner_id,
            member_roles,
            ows,
        ) == ALL,
{
}

/// A member holding a role with `ADMINISTRATOR` (or whose `@everyone` grants it) holds every
/// permission in the guild and in each of its channels.
pub proof fn law_administrator_has_all(
    owner_id: i64,
    user_id: i64,
    everyone: u64,
    roles: Seq<RoleGrant>,
    member_roles: Seq<i64>,
    admin_role: int,
    guild_id: i64,
    ows: Seq<Overwrite>,
)
    requires
        (0 <= admin_role < roles.len() && member_roles.contains(roles[admin_role].id)
            && roles[admin_role].permissions & ADMINISTRATOR != 0) || everyone & ADMINISTRATOR
            != 0,
    ensures
        guild_permissions_spec(owner_id, user_id, true, everyone, roles, member_roles) == ALL,
        channel_permissions_spec(
            guild_permissions_spec(owner_id, user_id, true, everyone, roles, member_roles),
            guild_id,
            user_id,
            member_roles,
            ows,
        ) == ALL,
{
    let u = role_union(roles, member_roles);
    if 0 <= admin_role < roles.len() && member_roles.contains(roles[admin_role].id)
        && roles[admin_role].permissions & ADMINISTRATOR != 0 {
        lemma_role_union_includes(roles, member_roles, admin_role);
        let x = roles[admin_role].permissions;
        assert(u & x == x && x & 0x8u64 != 0 ==> (everyone | u) & 0x8u64 != 0) by (bit_vector);
    } else {
        assert(everyone & 0x8u64 != 0 ==> (everyone | u) & 0x8u64 != 0) by (bit_vector);
    }
}

/// Someone who is neither the owner nor a member has no guild permission.
pub proof fn law_non_member_has_none(
    owner_id: i64,
    user_id: i64,
    everyone: u64,
    roles: Seq<RoleGrant>,
    member_roles: Seq<i64>,
)
    requires
        owner_id != user_id,
    ensures
        guild_permissions_spec(owner_id, user_id, false, everyone, roles, member_roles) == 0,
{
}

/// Channel permissions are either empty or include `VIEW_CHANNEL`: an invisible channel
/// grants nothing.
pub proof fn law_channel_view_gate(
    base: u64,
    guild_id: i64,
    user_id: i64,
    member_roles: Seq<i64>,
    ows: Seq<Overwrite>,
)
    ensures
        ({
            let r = channel_permissions_spec(base, guild_id, user_id, member_roles, ows);
            r == 0 || has_spec(r, VIEW_CHANNEL)
        }),
{
    let r = channel_permissions_spec(base, guild_id, user_id, member_roles, ows);
    assert(r == 0x1F_FFFF_FFFF_FFFFu64 ==> r & 0x400u64 == 0x400u64) by (bit_vector);
    assert(r & 0x400u64 != 0 ==> r & 0x400u64 == 0x400u64) by (bit_vector);
}

/// Member overwrites after index `k` that do not target `user_id` leave the result of
/// `apply_member` unchanged.
pub proof fn lemma_apply_member_suffix(p: u64, ows: Seq<Overwrite>, user_id: i64, k: int)
    requires
        0 <= k < ows.len(),
        forall|j: int| k < j < ows.len() ==> !is_member_overwrite(#[trigger] ows[j], user_id),
    ensures
        apply_member(p, ows, user_id) == apply_member(p, ows.take(k + 1), user_id),
    decreases ows.len(),
{
    if ows.len() == k + 1 {
        assert(ows.take(k + 1) == ows);
    } else {
        assert(ows.drop_last().take(k + 1) == ows.take(k + 1));
        assert forall|j: int| k < j < ows.drop_last().len() implies !is_member_overwrite(
            #[trigger] ows.drop_last()[j],
            user_id,
        ) by {
            assert(ows.drop_last()[j] == ows[j]);
        }
        lemma_apply_member_suffix(p, ows.drop_last(), user_id, k);
        assert(!is_member_overwrite(ows[ows.len() - 1], user_id));
    }
}

/// The last overwrite that targets the member themself decides: outside of a base of
/// `ALL`, every bit it allows is granted and every bit it only denies is withheld (or the
/// channel is invisible).
pub proof fn law_member_overwrite_decides(
    base: u64,
    guild_id: i64,
    user_id: i64,
    member_roles: Seq<i64>,
    ows: Seq<Overwrite>,
    k: int,
)
    requires
        base != ALL,
        0 <= k < ows.len(),
        is_member_overwrite(ows[k], user_id),
        forall|j: int| k < j < ows.len() ==> !is_member_overwrite(#[trigger] ows[j], user_id),
    ensures
        ({
            let r = channel_permissions_spec(base, guild_id, user_id, member_roles, ows);
            let o = ows[k];
            r == 0 || (r & o.allow == o.allow && r & (o.deny & !o.allow) == 0)
        }),
{
    let p1 = apply_everyone(base, ows, guild_id);
    let p2 = apply_overwrite(
        p1,
        role_allow(ows, guild_id, member_roles),
        role_deny(ows, guild_id, member_roles),
    );
    lemma_apply_member_suffix(p2, ows, user_id, k);
    let t = ows.take(k + 1);
    assert(t.drop_last() == ows.take(k));
    assert(t.last() == ows[k]);
    let q = apply_member(p2, ows.take(k), user_id);
    let o = ows[k];
    let (a, d) = (o.allow, o.deny);
    let r = (q & !d) | a;
    assert(((q & !d) | a) & a == a) by (bit_vector);
    assert(((q & !d) | a) & (d & !a) == 0) by (bit_vector);
}

/// Some overwrite of a role the member holds (other than `@everyone`) allows a bit of `b`.
pub open spec fn held_role_allows(ows: Seq<Overwrite>, guild_id: i64, member_roles: Seq<i64>, b: u64) -> bool {
    exists|k: int|
        0 <= k < ows.len() && is_role_overwrite(#[trigger] ows[k], guild_id, member_roles) && ows[k].allow
            & b != 0
}

/// Some overwrite of a role the member holds (other than `@everyone`) denies a bit of `b`.
pub open spec fn held_role_denies(ows: Seq<Overwrite>, guild_id: i64, member_roles: Seq<i64>, b: u64) -> bool {
    exists|k: int|
        0 <= k < ows.len() && is_role_overwrite(#[trigger] ows[k], guild_id, member_roles) && ows[k].deny
            & b != 0
}

proof fn lemma_role_allow_bits(ows: Seq<Overwrite>, guild_id: i64, member_roles: Seq<i64>, b: u64)
    ensures
        (role_allow(ows, guild_id, member_roles) & b != 0) <==> held_role_allows(ows, guild_id, member_roles, b),
    decreases ows.len(),
{
    if ows.len() > 0 {
        let d = ows.drop_last();
        lemma_role_allow_bits(d, guild_id, member_roles, b);
        let rest = role_allow(d, guild_id, member_roles);
        let x = ows.last().allow;
        assert(((rest | x) & b != 0) <==> (rest & b != 0 || x & b != 0)) by (bit_vector);
        if held_role_allows(d, guild_id, member_roles, b) {
            let k = choose|k: int|
                0 <= k < d.len() && is_role_overwrite(#[trigger] d[k], guild_id, member_roles) && d[k].allow & b
                    != 0;
            assert(ows[k] == d[k]);
        }
        if held_role_allows(ows, guild_id, member_roles, b) {
            let k = choose|k: int|
                0 <= k < ows.len() && is_role_overwrite(#[trigger] ows[k], guild_id, member_roles)
                    && ows[k].allow & b != 0;
            if k < d.len() {
                assert(d[k] == ows[k]);
            }
        }
        if is_role_overwrite(ows.last(), guild_id, member_roles) {
            assert(is_role_overwrite(ows[ows.len() - 1], guild_id, member_roles));
        } else {
            assert(!is_role_overwrite(ows[ows.len() - 1], guild_id, member_roles));
        }
    } else {
        assert(0u64 & b == 0) by (bit_vector);
    }
}

proof fn lemma_role_deny_bits(ows: Seq<Overwrite>, guild_id: i64, member_roles: Seq<i64>, b: u64)
    ensures
        (role_deny(ows, guild_id, member_roles) & b != 0) <==> held_role_denies(ows, guild_id, member_roles, b),
    decreases ows.len(),
{
    if ows.len() > 0 {
        let d = ows.drop_last();
        lemma_role_deny_bits(d, guild_id, member_roles, b);
        let rest = role_deny(d, guild_id, member_roles);
        let x = ows.last().deny;
        assert(((rest | x) & b != 0) <==> (rest & b != 0 || x & b != 0)) by (bit_vector);
        if held_role_denies(d, guild_id, member_roles, b) {
            let k = choose|k: int|
                0 <= k < d.len() && is_role_overwrite(#[trigger] d[k], guild_id, member_roles) && d[k].deny & b
                    != 0;
            assert(ows[k] == d[k]);
        }
        if held_role_denies(ows, guild_id, member_roles, b) {
            let k = choose|k: int|
                0 <= k < ows.len() && is_role_overwrite(#[trigger] ows[k], guild_id, member_roles)
                    && ows[k].deny & b != 0;
            if k < d.len() {
                assert(d[k] == ows[k]);
            }
        }
        if is_role_overwrite(ows.last(), guild_id, member_roles) {
            assert(is_role_overwrite(ows[ows.len() - 1], guild_id, member_roles));
        } else {
            assert(!is_role_overwrite(ows[ows.len() - 1], guild_id, member_roles));
        }
    } else {
        assert(0u64 & b == 0) by (bit_vector);
    }
}

proof fn lemma_no_member_overwrite(p: u64, ows: Seq<Overwrite>, user_id: i64)
    requires
        forall|j: int| 0 <= j < ows.len() ==> !is_member_overwrite(#[trigger] ows[j], user_id),
    ensures
        apply_member(p, ows, user_id) == p,
    decreases ows.len(),
{
    if ows.len() > 0 {
        let d = ows.drop_last();
        assert forall|j: int| 0 <= j < d.len() implies !is_member_overwrite(#[trigger] d[j], user_id) by {
            assert(d[j] == ows[j]);
        }
        lemma_no_member_overwrite(p, d, user_id);
        assert(!is_member_overwrite(ows[ows.len() - 1], user_id));
    }
}

proof fn lemma_role_allow_includes(ows: Seq<Overwrite>, guild_id: i64, member_roles: Seq<i64>, k: int)
    requires
        0 <= k < ows.len(),
        is_role_overwrite(ows[k], guild_id, member_roles),
    ensures
        role_allow(ows, guild_id, member_roles) & ows[k].allow == ows[k].allow,
    decreases ows.len(),
{
    let d = ows.drop_last();
    let rest = role_allow(d, guild_id, member_roles);
    let x = ows[k].allow;
    if k == ows.len() - 1 {
        assert((rest | x) & x == x) by (bit_vector);
    } else {
        assert(d[k] == ows[k]);
        lemma_role_allow_includes(d, guild_id, member_roles, k);
        let y = ows.last().allow;
        assert(rest & x == x ==> (rest | y) & x == x) by (bit_vector);
    }
}

/// The member's role overwrites act as one: with no overwrite for the member themself, a
/// visible channel grants bit `1 << s` exactly when some held role allows it, or when it
/// stood after the `@everyone` overwrites and no held role denies it. A role allow
/// therefore beats a role deny, whatever their order.
pub proof fn law_role_overwrites_allow_beats_deny(
    base: u64,
    guild_id: i64,
    user_id: i64,
    member_roles: Seq<i64>,
    ows: Seq<Overwrite>,
    s: u64,
)
    requires
        base != ALL,
        s < 64,
        forall|j: int| 0 <= j < ows.len() ==> !is_member_overwrite(#[trigger] ows[j], user_id),
    ensures
        ({
            let r = channel_permissions_spec(base, guild_id, user_id, member_roles, ows);
            let b = 1u64 << s;
            r != 0 ==> ((r & b != 0) <==> (held_role_allows(ows, guild_id, member_roles, b) || (
            apply_everyone(base, ows, guild_id) & b != 0 && !held_role_denies(
                ows,
                guild_id,
                member_roles,
                b,
            ))))
        }),
{
    let b = 1u64 << s;
    let p1 = apply_everyone(base, ows, guild_id);
    let a = role_allow(ows, guild_id, member_roles);
    let d = role_deny(ows, guild_id, member_roles);
    lemma_role_allow_bits(ows, guild_id, member_roles, b);
    lemma_role_deny_bits(ows, guild_id, member_roles, b);
    lemma_no_member_overwrite(apply_overwrite(p1, a, d), ows, user_id);
    assert((((p1 & !d) | a) & (1u64 << s) != 0) <==> (a & (1u64 << s) != 0 || (p1 & (1u64 << s) != 0
        && d & (1u64 << s) == 0))) by (bit_vector)
        requires
            s < 64,
    ;
}

/// With no overwrite for the member themself, every bit that an overwrite of a held role
/// allows is granted in a visible channel.
pub proof fn law_role_allow_granted(
    base: u64,
    guild_id: i64,
    user_id: i64,
    member_roles: Seq<i64>,
    ows: Seq<Overwrite>,
    k: int,
)
    requires
        base != ALL,
        0 <= k < ows.len(),
        ows[k].target_type == OVERWRITE_ROLE,
        ows[k].target_id != guild_id,
        member_roles.contains(ows[k].target_id),
        forall|j: int| 0 <= j < ows.len() ==> !is_member_overwrite(#[trigger] ows[j], user_id),
    ensures
        ({
            let r = channel_permissions_spec(base, guild_id, user_id, member_roles, ows);
            r != 0 ==> r & ows[k].allow == ows[k].allow
        }),
{
    let x = ows[k].allow;
    let p1 = apply_everyone(base, ows, guild_id);
    let a = role_allow(ows, guild_id, member_roles);
    let d = role_deny(ows, guild_id, member_roles);
    lemma_role_allow_includes(ows, guild_id, member_roles, k);
    lemma_no_member_overwrite(apply_overwrite(p1, a, d), ows, user_id);
    assert(a & x == x ==> ((p1 & !d) | a) & x == x) by (bit_vector);
}

/// The highest position of a member who is not the owner is the largest position (read as
/// an `i32`) among the roles of `roles` they hold, or `0` when none of them is above `0`:
/// it is at least the position of every held role, and it is `0` or one of them.
pub proof fn law_highest_role_is_the_maximum(
    owner_id: i64,
    user_id: i64,
    roles: Seq<RolePosition>,
    member_roles: Seq<i64>,
)
    requires
        owner_id != user_id,
    ensures
        ({
            let h = highest_role_position_spec(owner_id, user_id, roles, member_roles);
            &&& h >= 0
            &&& forall|i: int|
                0 <= i < roles.len() && member_roles.contains(roles[i].id) ==> h >= (
                #[trigger] roles[i]).position as i32
            &&& h == 0 || exists|i: int|
                0 <= i < roles.len() && member_roles.contains(roles[i].id) && h == (
                #[trigger] roles[i]).position as i32
        }),
{
    lemma_max_member_position(roles, member_roles);
    if member_roles.len() == 0 {
        assert forall|i: int|
            0 <= i < roles.len() && member_roles.contains(roles[i].id) implies 0 >= (
            #[trigger] roles[i]).position as i32 by {
            assert(member_roles.contains(roles[i].id));
        }
    }
}

proof fn lemma_max_member_position(roles: Seq<RolePosition>, member_roles: Seq<i64>)
    ensures
        ({
            let h = max_member_position(roles, member_roles);
            &&& h >= 0
            &&& forall|i: int|
                0 <= i < roles.len() && member_roles.contains(roles[i].id) ==> h >= (
                #[trigger] roles[i]).position as i32
            &&& h == 0 || exists|i: int|
                0 <= i < roles.len() && member_roles.contains(roles[i].id) && h == (
                #[trigger] roles[i]).position as i32
        }),
    decreases roles.len(),
{
    if roles.len() > 0 {
        let d = roles.drop_last();
        lemma_max_member_position(d, member_roles);
        let h = max_member_position(roles, member_roles);
        assert forall|i: int|
            0 <= i < roles.len() && member_roles.contains(roles[i].id) implies h >= (
            #[trigger] roles[i]).position as i32 by {
            if i < d.len() {
                assert(d[i] == roles[i]);
            }
        }
        if h != 0 && h != max_member_position(d, member_roles) {
            assert(roles[roles.len() - 1] == roles.last());
        } else if h != 0 {
            let i = choose|i: int|
                0 <= i < d.len() && member_roles.contains(d[i].id) && h == (#[trigger] d[i]).position as i32;
            assert(roles[i] == d[i]);
        }
    }
}

/// Overwrite `o` says something of the bits `b`: it allows or denies one of them.
pub open spec fn mentions_bit(o: Overwrite, b: u64) -> bool {
    o.allow & b != 0 || o.deny & b != 0
}

/// Selects the `@everyone` overwrites of `guild_id`.
pub open spec fn everyone_sel(guild_id: i64) -> spec_fn(Overwrite) -> bool {
    |o: Overwrite| is_everyone_overwrite(o, guild_id)
}

/// Selects the overwrites of the member `user_id`.
pub open spec fn member_sel(user_id: i64) -> spec_fn(Overwrite) -> bool {
    |o: Overwrite| is_member_overwrite(o, user_id)
}

/// `ows[k]` is the last overwrite selected by `sel` that mentions bit `b`.
pub open spec fn decided_by(ows: Seq<Overwrite>, sel: spec_fn(Overwrite) -> bool, b: u64, k: int) -> bool {
    &&& 0 <= k < ows.len()
    &&& sel(ows[k])
    &&& mentions_bit(ows[k], b)
    &&& forall|j: int| k < j < ows.len() && sel(#[trigger] ows[j]) ==> !mentions_bit(ows[j], b)
}

/// Bit `b` after a stage of overwrites chosen by `sel`: the last of them that mentions it
/// decides (set when it allows it); when none does, the bit stays as `before`.
pub open spec fn bit_after(before: bool, ows: Seq<Overwrite>, sel: spec_fn(Overwrite) -> bool, b: u64) -> bool {
    (exists|k: int| #[trigger] decided_by(ows, sel, b, k) && ows[k].allow & b != 0) || (!(exists|k: int|
        #[trigger] decided_by(ows, sel, b, k)) && before)
}

/// Bit `b` after the three overwrite stages of a guild channel: the `@everyone`
/// overwrites, then the held roles together (an allow wins over a deny), then the
/// member's own overwrites.
pub open spec fn channel_bit(
    base: u64,
    guild_id: i64,
    user_id: i64,
    member_roles: Seq<i64>,
    ows: Seq<Overwrite>,
    b: u64,
) -> bool {
    let after_everyone = bit_after(base & b != 0, ows, everyone_sel(guild_id), b);
    let after_roles = held_role_allows(ows, guild_id, member_roles, b) || (after_everyone
        && !held_role_denies(ows, guild_id, member_roles, b));
    bit_after(after_roles, ows, member_sel(user_id), b)
}

/// One overwrite step on a single bit: the step decides the bit when it mentions it.
proof fn lemma_step_bit(q: u64, a: u64, d: u64, s: u64)
    requires
        s < 64,
    ensures
        ((((q & !d) | a) & (1u64 << s)) != 0) == (if a & (1u64 << s) != 0 || d & (1u64 << s) != 0 {
            a & (1u64 << s) != 0
        } else {
            q & (1u64 << s) != 0
        }),
{
    assert(((((q & !d) | a) & (1u64 << s)) != 0) == (if a & (1u64 << s) != 0 || d & (1u64 << s) != 0 {
        a & (1u64 << s) != 0
    } else {
        q & (1u64 << s) != 0
    })) by (bit_vector)
        requires
            s < 64,
    ;
}

/// Extending the overwrites by `o`: who decides a bit, and whether it is set.
proof fn lemma_bit_after_push(
    before: bool,
    d: Seq<Overwrite>,
    o: Overwrite,
    sel: spec_fn(Overwrite) -> bool,
    b: u64,
)
    ensures
        sel(o) && mentions_bit(o, b) ==> (bit_after(before, d.push(o), sel, b) == (o.allow & b != 0)),
        !(sel(o) && mentions_bit(o, b)) ==> (bit_after(before, d.push(o), sel, b) == bit_after(
            before,
            d,
            sel,
            b,
        )),
{
    let ows = d.push(o);
    let n = d.len() as int;
    if sel(o) && mentions_bit(o, b) {
        assert(ows[n] == o);
        assert(decided_by(ows, sel, b, n));
        if exists|k: int| #[trigger] decided_by(ows, sel, b, k) && ows[k].allow & b != 0 {
            let k = choose|k: int| #[trigger] decided_by(ows, sel, b, k) && ows[k].allow & b != 0;
            if k < n {
                assert(sel(ows[n]));
            }
        }
    } else {
        assert forall|k: int| decided_by(ows, sel, b, k) <==> #[trigger] decided_by(d, sel, b, k) by {
            if 0 <= k < n {
                assert(ows[k] == d[k]);
                if decided_by(d, sel, b, k) {
                    assert forall|j: int| k < j < ows.len() && sel(#[trigger] ows[j]) implies !mentions_bit(
                        ows[j],
                        b,
                    ) by {
                        if j < n {
                            assert(d[j] == ows[j]);
                            assert(k < j < d.len() && sel(d[j]));
                        } else {
                            assert(ows[j] == o);
                        }
                    }
                }
                if decided_by(ows, sel, b, k) {
                    assert forall|j: int| k < j < d.len() && sel(#[trigger] d[j]) implies !mentions_bit(
                        d[j],
                        b,
                    ) by {
                        assert(d[j] == ows[j]);
                        assert(k < j < ows.len() && sel(ows[j]));
                    }
                }
            } else if k == n {
                assert(ows[k] == o);
            }
        }
        if exists|k: int| #[trigger] decided_by(ows, sel, b, k) && ows[k].allow & b != 0 {
            let k = choose|k: int| #[trigger] decided_by(ows, sel, b, k) && ows[k].allow & b != 0;
            assert(decided_by(d, sel, b, k));
            assert(ows[k] == d[k]);
        }
        if exists|k: int| #[trigger] decided_by(d, sel, b, k) && d[k].allow & b != 0 {
            let k = choose|k: int| #[trigger] decided_by(d, sel, b, k) && d[k].allow & b != 0;
            assert(decided_by(ows, sel, b, k));
            assert(ows[k] == d[k]);
        }
        if exists|k: int| #[trigger] decided_by(ows, sel, b, k) {
            let k = choose|k: int| #[trigger] decided_by(ows, sel, b, k);
            assert(decided_by(d, sel, b, k));
        }
        if exists|k: int| #[trigger] decided_by(d, sel, b, k) {
            let k = choose|k: int| #[trigger] decided_by(d, sel, b, k);
            assert(decided_by(ows, sel, b, k));
        }
    }
}

proof fn lemma_everyone_bit(p: u64, ows: Seq<Overwrite>, guild_id: i64, s: u64)
    requires
        s < 64,
    ensures
        (apply_everyone(p, ows, guild_id) & (1u64 << s) != 0) == bit_after(
            p & (1u64 << s) != 0,
            ows,
            everyone_sel(guild_id),
            1u64 << s,
        ),
    decreases ows.len(),
{
    let b = 1u64 << s;
    if ows.len() == 0 {
        assert(!(exists|k: int| #[trigger] decided_by(ows, everyone_sel(guild_id), b, k)));
    } else {
        let d = ows.drop_last();
        let o = ows.last();
        lemma_everyone_bit(p, d, guild_id, s);
        assert(d.push(o) == ows);
        lemma_bit_after_push(p & b != 0, d, o, everyone_sel(guild_id), b);
        let q = apply_everyone(p, d, guild_id);
        lemma_step_bit(q, o.allow, o.deny, s);
    }
}

proof fn lemma_member_bit(before: bool, p: u64, ows: Seq<Overwrite>, user_id: i64, s: u64)
    requires
        s < 64,
        (p & (1u64 << s) != 0) == before,
    ensures
        (apply_member(p, ows, user_id) & (1u64 << s) != 0) == bit_after(
            before,
            ows,
            member_sel(user_id),
            1u64 << s,
        ),
    decreases ows.len(),
{
    let b = 1u64 << s;
    if ows.len() == 0 {
        assert(!(exists|k: int| #[trigger] decided_by(ows, member_sel(user_id), b, k)));
    } else {
        let d = ows.drop_last();
        let o = ows.last();
        lemma_member_bit(before, p, d, user_id, s);
        assert(d.push(o) == ows);
        lemma_bit_after_push(before, d, o, member_sel(user_id), b);
        let q = apply_member(p, d, user_id);
        lemma_step_bit(q, o.allow, o.deny, s);
    }
}

/// What the permissions of a guild channel are, bit by bit (outside a base of `ALL`):
/// each of the three overwrite stages decides a bit by its last overwrite that mentions
/// it, the held roles counting as one stage in which an allow beats a deny; the channel
/// is visible (the result is not `0`) exactly when `VIEW_CHANNEL` comes out set, and then
/// bit `1 << s` is granted exactly when it comes out set.
pub proof fn law_channel_permissions_bit_by_bit(
    base: u64,
    guild_id: i64,
    user_id: i64,
    member_roles: Seq<i64>,
    ows: Seq<Overwrite>,
    s: u64,
)
    requires
        base != ALL,
        s < 64,
    ensures
        ({
            let r = channel_permissions_spec(base, guild_id, user_id, member_roles, ows);
            &&& (r != 0) == channel_bit(base, guild_id, user_id, member_roles, ows, VIEW_CHANNEL)
            &&& r != 0 ==> ((r & (1u64 << s) != 0) == channel_bit(
                base,
                guild_id,
                user_id,
                member_roles,
                ows,
                1u64 << s,
            ))
        }),
{
    let p1 = apply_everyone(base, ows, guild_id);
    let a = role_allow(ows, guild_id, member_roles);
    let d = role_deny(ows, guild_id, member_roles);
    let p2 = apply_overwrite(p1, a, d);
    let q = apply_member(p2, ows, user_id);
    assert(1u64 << 10u64 == VIEW_CHANNEL) by (bit_vector);
    assert forall|t: u64| t < 64 implies ((q & (1u64 << t) != 0) == #[trigger] channel_bit(
        base,
        guild_id,
        user_id,
        member_roles,
        ows,
        1u64 << t,
    )) by {
        let b = 1u64 << t;
        lemma_everyone_bit(base, ows, guild_id, t);
        lemma_role_allow_bits(ows, guild_id, member_roles, b);
        lemma_role_deny_bits(ows, guild_id, member_roles, b);
        assert((((p1 & !d) | a) & (1u64 << t) != 0) <==> (a & (1u64 << t) != 0 || (p1 & (1u64 << t) != 0
            && d & (1u64 << t) == 0))) by (bit_vector)
            requires
                t < 64,
        ;
        lemma_member_bit(p2 & b != 0, p2, ows, user_id, t);
    }
    assert(channel_bit(base, guild_id, user_id, member_roles, ows, 1u64 << 10u64) == (q & (1u64 << 10u64)
        != 0));
    assert(q & 0x400u64 != 0 ==> q != 0) by (bit_vector);
}

/// The guild owner ranks above every role, and a base of `ALL` (owner or administrator)
/// is kept in every channel, whatever its overwrites.
pub proof fn law_top_rank_and_full_base(
    owner_id: i64,
    roles: Seq<RolePosition>,
    member_roles: Seq<i64>,
    guild_id: i64,
    user_id: i64,
    ows: Seq<Overwrite>,
)
    ensures
        highest_role_position_spec(owner_id, owner_id, roles, member_roles) == i32::MAX,
        channel_permissions_spec(ALL, guild_id, user_id, member_roles, ows) == ALL,
{
}

/// A kick, ban or timeout goes through exactly when the target is not the owner and the
/// actor's highest role ranks strictly above the target's; the owner, ranking above every
/// role, may act on anyone else.
pub proof fn law_member_action_needs_higher_rank(
    action: MemberAction,
    owner_id: i64,
    actor_id: i64,
    target_id: i64,
    roles: Seq<RolePosition>,
    actor_roles: Seq<i64>,
    target_pos: i32,
    r: Result<(), AppError>,
)
    requires
        check_member_action_spec(
            action,
            owner_id,
            target_id,
            highest_role_position_spec(owner_id, actor_id, roles, actor_roles) as i32,
            target_pos,
            r,
        ),
    ensures
        r is Ok <==> (target_id != owner_id && highest_role_position_spec(
            owner_id,
            actor_id,
            roles,
            actor_roles,
        ) > target_pos),
        (actor_id == owner_id && target_id != owner_id && target_pos < i32::MAX) ==> r is Ok,
{
    if owner_id != actor_id {
        law_highest_role_is_the_maximum(owner_id, actor_id, roles, actor_roles);
        lemma_max_member_position(roles, actor_roles);
    }
}

/// In a conversation a recipient holds the whole DM set, except that a block between the
/// two sides of a one-to-one DM withdraws exactly sending, voice messages and reactions.
pub proof fn law_dm_block_withdraws_exactly_sending(is_recipient: bool, kind: i64, blocked: bool)
    requires
        is_recipient,
    ensures
        ({
            let r = dm_permissions_spec(is_recipient, kind, blocked);
            &&& (kind == DM_KIND_DIRECT && blocked) ==> (r & (SEND_MESSAGES | SEND_VOICE_MESSAGES
                | ADD_REACTIONS) == 0 && r | (SEND_MESSAGES | SEND_VOICE_MESSAGES | ADD_REACTIONS)
                == DM_PERMS)
            &&& !(kind == DM_KIND_DIRECT && blocked) ==> r == DM_PERMS
        }),
{
    assert((DM_PERMS & !DM_BLOCKED_BITS) & (SEND_MESSAGES | SEND_VOICE_MESSAGES | ADD_REACTIONS) == 0)
        by (bit_vector);
    assert((DM_PERMS & !DM_BLOCKED_BITS) | (SEND_MESSAGES | SEND_VOICE_MESSAGES | ADD_REACTIONS)
        == DM_PERMS) by (bit_vector);
}

/// DM permissions never exceed the fixed DM set; a one-to-one DM with a block in either
/// direction is read-only.
pub proof fn law_dm_permissions_bounded(is_recipient: bool, kind: i64, blocked: bool)
    ensures
        dm_permissions_spec(is_recipient, kind, blocked) & !DM_PERMS == 0,
        is_recipient && kind == DM_KIND_DIRECT && blocked ==> dm_permissions_spec(
            is_recipient,
            kind,
            blocked,
        ) & SEND_MESSAGES == 0,
        !is_recipient ==> dm_permissions_spec(is_recipient, kind, blocked) == 0,
{
    let p = dm_permissions_spec(is_recipient, kind, blocked);
    assert(DM_PERMS & !DM_PERMS == 0) by (bit_vector);
    assert(0u64 & !DM_PERMS == 0) by (bit_vector);
    assert((DM_PERMS & !DM_BLOCKED_BITS) & !DM_PERMS == 0) by (bit_vector);
    assert((DM_PERMS & !DM_BLOCKED_BITS) & SEND_MESSAGES == 0) by (bit_vector);
}

} // verus!
