//! Role ordering: a reorder request names every role of the guild (except `@everyone`,
//! whose id is the guild id) from top to bottom; positions become `n..1`. A member who is
//! not the owner may neither place a role at or above their own highest role, nor move a
//! role that already stands there.

use vstd::prelude::*;
use crate::error::{AppError, is_bad_request, is_forbidden, is_not_found};
use crate::numbers::{parse_permissions, parse_u64_spec};
use crate::permissions::{RolePosition, contains_id, grantable_bits, overwrite_bits};
use crate::perms::ADMINISTRATOR;
use crate::validate::sanitize_color_style;

verus! {

/// `id` is the id of some role in `current`.
pub open spec fn has_role(current: Seq<RolePosition>, id: i64) -> bool {
    exists|j: int| 0 <= j < current.len() && current[j].id == id
}

/// Current position of role `id` (its last row wins; `0` when unknown), as an `i32`.
pub open spec fn current_position(current: Seq<RolePosition>, id: i64) -> i32
    decreases current.len(),
{
    if current.len() == 0 {
        0
    } else if current.last().id == id {
        current.last().position as i32
    } else {
        current_position(current.drop_last(), id)
    }
}

/// `ids` lists every role of `current` but `@everyone`, each exactly once.
pub open spec fn is_full_ordering(guild_id: i64, current: Seq<RolePosition>, ids: Seq<i64>) -> bool {
    &&& ids.no_duplicates()
    &&& forall|x: i64| ids.contains(x) <==> (x != guild_id && has_role(current, x))
}

/// New position of the role at index `i` of an ordering of `n` roles.
pub open spec fn new_position(n: int, i: int) -> i32 {
    (n - i) as i32
}

/// The hierarchy problem, if any, of the moves `0..k` (first offending move wins).
pub open spec fn hierarchy_problem(
    actor_pos: i32,
    current: Seq<RolePosition>,
    ids: Seq<i64>,
    k: int,
) -> Option<Seq<char>>
    decreases k,
{
    if k <= 0 {
        None
    } else {
        match hierarchy_problem(actor_pos, current, ids, k - 1) {
            Some(m) => Some(m),
            None => {
                let np = new_position(ids.len() as int, k - 1);
                let op = current_position(current, ids[k - 1]);
                if np >= actor_pos {
                    Some("impossible de placer un rôle au-dessus ou au niveau du vôtre"@)
                } else if op >= actor_pos && np != op {
                    Some("impossible de déplacer un rôle au-dessus ou au niveau du vôtre"@)
                } else {
                    None
                }
            },
        }
    }
}

/// Outcome of [`plan_role_reorder`].
pub open spec fn reorder_outcome(
    guild_id: i64,
    is_owner: bool,
    actor_pos: i32,
    current: Seq<RolePosition>,
    ids: Seq<i64>,
    r: Result<Vec<(i64, i32)>, AppError>,
) -> bool {
    if ids.contains(guild_id) {
        r is Err && is_bad_request(r->Err_0, "le rôle @everyone ne peut pas être réordonné"@)
    } else if !is_full_ordering(guild_id, current, ids) {
        r is Err && is_bad_request(
            r->Err_0,
            "la liste doit contenir exactement tous les rôles (hors @everyone), sans doublon"@,
        )
    } else if !is_owner && hierarchy_problem(actor_pos, current, ids, ids.len() as int) is Some {
        r is Err && is_forbidden(
            r->Err_0,
            hierarchy_problem(actor_pos, current, ids, ids.len() as int)->0,
        )
    } else {
        r is Ok && r->Ok_0@.len() == ids.len() && forall|i: int|
            0 <= i < ids.len() ==> #[trigger] r->Ok_0@[i] == (ids[i], new_position(
                ids.len() as int,
                i,
            ))
    }
}

/// Current position of role `id` (see [`current_position`]).
fn position_of(current: &Vec<RolePosition>, id: i64) -> (r: i32)
    ensures
        r == current_position(current@, id),
{
    let mut i: usize = current.len();
    assert(current@.take(current@.len() as int) == current@);
    while i > 0
        invariant
            i <= current@.len(),
            current_position(current@, id) == current_position(current@.take(i as int), id),
        decreases i,
    {
        let r = current[i - 1];
        assert(current@.take(i as int).drop_last() == current@.take(i - 1));
        assert(current@.take(i as int).last() == r);
        if r.id == id {
            #[verifier::truncate]
            let p = r.position as i32;
            return p;
        }
        i = i - 1;
    }
    0
}

/// Whether some role of `current` has id `id`.
fn role_exists(current: &Vec<RolePosition>, id: i64) -> (r: bool)
    ensures
        r == has_role(current@, id),
{
    let mut i: usize = 0;
    while i < current.len()
        invariant
            0 <= i <= current.len(),
            forall|j: int| 0 <= j < i ==> current@[j].id != id,
        decreases current.len() - i,
    {
        if current[i].id == id {
            return true;
        }
        i = i + 1;
    }
    false
}

/// Whether `x` occurs among the first `end` elements of `ids`.
fn contains_before(ids: &Vec<i64>, end: usize, x: i64) -> (r: bool)
    requires
        end <= ids@.len(),
    ensures
        r == exists|a: int| 0 <= a < end && ids@[a] == x,
{
    let mut k: usize = 0;
    while k < end
        invariant
            end <= ids@.len(),
            0 <= k <= end,
            forall|a: int| 0 <= a < k ==> ids@[a] != x,
        decreases end - k,
    {
        if ids[k] == x {
            return true;
        }
        k = k + 1;
    }
    false
}

/// Checks a reorder request and answers the new `(role id, position)` list, top first.
pub fn plan_role_reorder(
    guild_id: i64,
    is_owner: bool,
    actor_pos: i32,
    current: &Vec<RolePosition>,
    ids: &Vec<i64>,
) -> (r: Result<Vec<(i64, i32)>, AppError>)
    ensures
        reorder_outcome(guild_id, is_owner, actor_pos, current@, ids@, r),
{
    if contains_id(ids, guild_id) {
        return Err(AppError::bad_request("le rôle @everyone ne peut pas être réordonné"));
    }
    let n = ids.len();
    // No duplicate, and every listed id is a role.
    let mut i: usize = 0;
    let mut ok = true;
    while i < n
        invariant
            n == ids@.len(),
            0 <= i <= n,
            ok ==> forall|a: int, b: int| 0 <= a < b < i ==> ids@[a] != ids@[b],
            ok ==> forall|a: int| 0 <= a < i ==> has_role(current@, #[trigger] ids@[a]),
            !ok ==> !is_full_ordering(guild_id, current@, ids@),
        decreases n - i,
    {
        if ok {
            let x = ids[i];
            if contains_before(ids, i, x) {
                ok = false;
                assert(!ids@.no_duplicates());
            } else if !role_exists(current, x) {
                ok = false;
                assert(ids@.contains(x));
            }
        }
        i = i + 1;
    }
    // Every role but `@everyone` is listed.
    let mut j: usize = 0;
    while ok && j < current.len()
        invariant
            n == ids@.len(),
            0 <= j <= current@.len(),
            ok ==> forall|q: int|
                0 <= q < j && current@[q].id != guild_id ==> ids@.contains(#[trigger] current@[q].id),
            ok ==> forall|a: int, b: int| 0 <= a < b < n ==> ids@[a] != ids@[b],
            ok ==> forall|a: int| 0 <= a < n ==> has_role(current@, #[trigger] ids@[a]),
            !ok ==> !is_full_ordering(guild_id, current@, ids@),
        decreases current.len() - j,
    {
        let id = current[j].id;
        if id != guild_id && !contains_id(ids, id) {
            ok = false;
            assert(has_role(current@, id));
        }
        j = j + 1;
    }
    if !ok {
        return Err(
            AppError::bad_request(
                "la liste doit contenir exactement tous les rôles (hors @everyone), sans doublon",
            ),
        );
    }
    assert(is_full_ordering(guild_id, current@, ids@)) by {
        assert forall|x: i64| ids@.contains(x) <==> (x != guild_id && has_role(current@, x)) by {
            if ids@.contains(x) {
                let a = choose|a: int| 0 <= a < ids@.len() && ids@[a] == x;
                assert(has_role(current@, ids@[a]));
                assert(x != guild_id);
            }
            if x != guild_id && has_role(current@, x) {
                let q = choose|q: int| 0 <= q < current@.len() && current@[q].id == x;
                assert(ids@.contains(current@[q].id));
            }
        }
    }
    let mut plan: Vec<(i64, i32)> = Vec::new();
    let mut i: usize = 0;
    while i < n
        invariant
            n == ids@.len(),
            0 <= i <= n,
            plan@.len() == i,
            forall|a: int| 0 <= a < i ==> #[trigger] plan@[a] == (ids@[a], new_position(n as int, a)),
            !is_owner ==> hierarchy_problem(actor_pos, current@, ids@, i as int) is None,
            !ids@.contains(guild_id),
            is_full_ordering(guild_id, current@, ids@),
        decreases n - i,
    {
        let id = ids[i];
        #[verifier::truncate]
        let np: i32 = (n - i) as i32;
        if !is_owner {
            let op = position_of(current, id);
            if np >= actor_pos {
                proof {
                    lemma_problem_persists(actor_pos, current@, ids@, i + 1, n as int);
                }
                return Err(
                    AppError::forbidden(
                        "impossible de placer un rôle au-dessus ou au niveau du vôtre",
                    ),
                );
            }
            if op >= actor_pos && np != op {
                proof {
                    lemma_problem_persists(actor_pos, current@, ids@, i + 1, n as int);
                }
                return Err(
                    AppError::forbidden(
                        "impossible de déplacer un rôle au-dessus ou au niveau du vôtre",
                    ),
                );
            }
        }
        plan.push((id, np));
        i = i + 1;
    }
    Ok(plan)
}

/// Hierarchy problems stay once found.
proof fn lemma_problem_persists(
    actor_pos: i32,
    current: Seq<RolePosition>,
    ids: Seq<i64>,
    k: int,
    n: int,
)
    requires
        0 <= k <= n,
        hierarchy_problem(actor_pos, current, ids, k) is Some,
    ensures
        hierarchy_problem(actor_pos, current, ids, n) == hierarchy_problem(
            actor_pos,
            current,
            ids,
            k,
        ),
    decreases n - k,
{
    if n > k {
        lemma_problem_persists(actor_pos, current, ids, k, n - 1);
    }
}

/// An accepted reorder by a member who is not the owner never puts a role at or above
/// that member's own highest role.
pub proof fn law_reorder_respects_hierarchy(
    actor_pos: i32,
    current: Seq<RolePosition>,
    ids: Seq<i64>,
    i: int,
)
    requires
        hierarchy_problem(actor_pos, current, ids, ids.len() as int) is None,
        0 <= i < ids.len(),
    ensures
        new_position(ids.len() as int, i) < actor_pos,
{
    if !(new_position(ids.len() as int, i) < actor_pos) {
        assert(hierarchy_problem(actor_pos, current, ids, i + 1) is Some);
        lemma_problem_persists(actor_pos, current, ids, i + 1, ids.len() as int);
    }
}

/// A member who is not the owner can reorder only roles below their own: when such a
/// reorder is accepted, every listed role stood below `actor_pos` before and stands below
/// it after, so a role at or above the actor's keeps its position (it cannot be listed).
pub proof fn law_reorder_leaves_higher_roles_alone(
    guild_id: i64,
    actor_pos: i32,
    current: Seq<RolePosition>,
    ids: Seq<i64>,
    r: Result<Vec<(i64, i32)>, AppError>,
)
    requires
        reorder_outcome(guild_id, false, actor_pos, current, ids, r),
        r is Ok,
    ensures
        forall|i: int|
            0 <= i < ids.len() ==> current_position(current, #[trigger] ids[i]) < actor_pos
                && new_position(ids.len() as int, i) < actor_pos,
        forall|i: int|
            0 <= i < ids.len() && current_position(current, #[trigger] ids[i]) >= actor_pos
                ==> new_position(ids.len() as int, i) == current_position(current, ids[i]),
{
    let n = ids.len() as int;
    assert(hierarchy_problem(actor_pos, current, ids, n) is None);
    assert forall|i: int| 0 <= i < ids.len() implies current_position(current, #[trigger] ids[i])
        < actor_pos && new_position(n, i) < actor_pos by {
        if hierarchy_problem(actor_pos, current, ids, i + 1) is Some {
            lemma_problem_persists(actor_pos, current, ids, i + 1, n);
        }
        if hierarchy_problem(actor_pos, current, ids, i) is Some {
            lemma_problem_persists(actor_pos, current, ids, i, n);
        }
    }
}

/// An accepted reorder gives the listed roles the positions `n, n - 1, ..., 1` from the
/// top of the list down; the owner's reorder is accepted whenever it lists every role but
/// `@everyone` exactly once, and any other list is refused.
pub proof fn law_reorder_positions_and_owner(
    guild_id: i64,
    is_owner: bool,
    actor_pos: i32,
    current: Seq<RolePosition>,
    ids: Seq<i64>,
    r: Result<Vec<(i64, i32)>, AppError>,
)
    requires
        reorder_outcome(guild_id, is_owner, actor_pos, current, ids, r),
        ids.len() < 0x7fff_ffff,
    ensures
        r is Ok ==> r->Ok_0@.len() == ids.len() && forall|i: int|
            0 <= i < ids.len() ==> #[trigger] r->Ok_0@[i] == (ids[i], (ids.len() - i) as i32)
                && r->Ok_0@[i].1 == ids.len() - i,
        (is_owner && ids.no_duplicates() && forall|x: i64|
            ids.contains(x) <==> (x != guild_id && exists|j: int|
                0 <= j < current.len() && (#[trigger] current[j]).id == x)) ==> r is Ok,
        r is Ok ==> ids.no_duplicates() && !ids.contains(guild_id) && forall|i: int|
            0 <= i < ids.len() ==> exists|j: int|
                0 <= j < current.len() && (#[trigger] current[j]).id == #[trigger] ids[i],
{
    if r is Ok {
        assert forall|i: int| 0 <= i < ids.len() implies exists|j: int|
            0 <= j < current.len() && (#[trigger] current[j]).id == #[trigger] ids[i] by {
            assert(ids.contains(ids[i]));
            assert(has_role(current, ids[i]));
        }
    }
    if is_owner && ids.no_duplicates() && forall|x: i64|
        ids.contains(x) <==> (x != guild_id && exists|j: int|
            0 <= j < current.len() && (#[trigger] current[j]).id == x) {
        assert forall|x: i64| ids.contains(x) <==> (x != guild_id && has_role(current, x)) by {}
        assert(!ids.contains(guild_id));
    }
}

/// Reading of a permission set sent as a decimal string (`0` when unreadable).
pub open spec fn parsed_perms(s: Option<Seq<char>>) -> u64 {
    match s {
        Some(t) => match parse_u64_spec(t) {
            Some(v) => v,
            None => 0,
        },
        None => 0,
    }
}

/// View of an optional string slice.
pub open spec fn opt_view(s: Option<&str>) -> Option<Seq<char>> {
    match s {
        Some(v) => Some(v@),
        None => None,
    }
}

/// The color style kept for a role: one of the known styles, else `solid`.
pub open spec fn style_of(s: Seq<char>) -> Seq<char> {
    if s == "gradient"@ || s == "neon"@ || s == "wave"@ {
        s
    } else {
        "solid"@
    }
}

/// The settings of a role.
pub struct RoleFields {
    pub name: String,
    pub color: u32,
    pub secondary_color: Option<u32>,
    pub color_style: String,
    pub hoist: bool,
    pub mentionable: bool,
    pub permissions: u64,
}

/// A role creation or update request; each field may be absent.
pub struct RoleRequest {
    pub name: Option<String>,
    pub color: Option<u32>,
    /// `None`: not sent; `Some(None)`: cleared.
    pub secondary_color: Option<Option<u32>>,
    pub color_style: Option<String>,
    pub hoist: Option<bool>,
    pub mentionable: Option<bool>,
    pub permissions: Option<String>,
}

fn opt_as_str(s: &Option<String>) -> (r: Option<&str>)
    ensures
        opt_view(r) == (match s {
            Some(v) => Some(v@),
            None => None,
        }),
{
    match s {
        Some(v) => Some(v.as_str()),
        None => None,
    }
}

/// A new role from a request by a member holding `actor`: `nouveau rôle`, colour 0, no
/// second colour unless sent, style checked, not hoisted nor mentionable unless sent, and
/// only the requested permissions the member holds (no escalation). Its position is just
/// above the highest role of the guild (`max_position`).
pub fn new_role(req: RoleRequest, actor: u64, max_position: i64) -> (r: (RoleFields, i64))
    requires
        max_position < i64::MAX,
    ensures
        r.0.name@ == (match req.name {
            Some(n) => n@,
            None => "nouveau rôle"@,
        }),
        r.0.color == (match req.color {
            Some(c) => c,
            None => 0,
        }),
        r.0.secondary_color == (match req.secondary_color {
            Some(c) => c,
            None => None,
        }),
        r.0.color_style@ == (match req.color_style {
            Some(s) => style_of(s@),
            None => "solid"@,
        }),
        r.0.hoist == (req.hoist == Some(true)),
        r.0.mentionable == (req.mentionable == Some(true)),
        r.0.permissions == parsed_perms(match req.permissions {
            Some(p) => Some(p@),
            None => None,
        }) & actor,
        r.0.permissions & !actor == 0,
        r.1 == max_position + 1,
{
    let requested = match &req.permissions {
        Some(p) => parse_permissions(p.as_str()),
        None => 0,
    };
    let style = sanitize_color_style(opt_as_str(&req.color_style)).to_owned();
    let fields = RoleFields {
        name: match req.name {
            Some(n) => n,
            None => "nouveau rôle".to_owned(),
        },
        color: match req.color {
            Some(c) => c,
            None => 0,
        },
        secondary_color: match req.secondary_color {
            Some(c) => c,
            None => None,
        },
        color_style: style,
        hoist: match req.hoist {
            Some(b) => b,
            None => false,
        },
        mentionable: match req.mentionable {
            Some(b) => b,
            None => false,
        },
        permissions: grantable_bits(requested, actor),
    };
    (fields, max_position + 1)
}

/// A role after an update by a member holding `actor`: each field sent replaces the
/// current one (the style checked, the permissions limited to those the member holds);
/// the others are kept.
pub fn updated_role(cur: RoleFields, req: RoleRequest, actor: u64) -> (r: RoleFields)
    ensures
        r.name@ == (match req.name {
            Some(n) => n@,
            None => cur.name@,
        }),
        r.color == (match req.color {
            Some(c) => c,
            None => cur.color,
        }),
        r.secondary_color == (match req.secondary_color {
            Some(c) => c,
            None => cur.secondary_color,
        }),
        r.color_style@ == (match req.color_style {
            Some(s) => style_of(s@),
            None => style_of(cur.color_style@),
        }),
        r.hoist == (match req.hoist {
            Some(b) => b,
            None => cur.hoist,
        }),
        r.mentionable == (match req.mentionable {
            Some(b) => b,
            None => cur.mentionable,
        }),
        r.permissions == (match req.permissions {
            Some(p) => parsed_perms(Some(p@)) & actor,
            None => cur.permissions,
        }),
{
    let style = match &req.color_style {
        Some(s) => sanitize_color_style(Some(s.as_str())).to_owned(),
        None => sanitize_color_style(Some(cur.color_style.as_str())).to_owned(),
    };
    let permissions = match &req.permissions {
        Some(p) => grantable_bits(parse_permissions(p.as_str()), actor),
        None => cur.permissions,
    };
    RoleFields {
        name: match req.name {
            Some(n) => n,
            None => cur.name,
        },
        color: match req.color {
            Some(c) => c,
            None => cur.color,
        },
        secondary_color: match req.secondary_color {
            Some(c) => c,
            None => cur.secondary_color,
        },
        color_style: style,
        hoist: match req.hoist {
            Some(b) => b,
            None => cur.hoist,
        },
        mentionable: match req.mentionable {
            Some(b) => b,
            None => cur.mentionable,
        },
        permissions,
    }
}

/// The `@everyone` role (id = guild id) is implicit: it cannot be deleted, granted or
/// removed; `message` is the refusal of the operation.
pub fn check_not_everyone(role_id: i64, guild_id: i64, message: &str) -> (r: Result<(), AppError>)
    ensures
        role_id != guild_id ==> r is Ok,
        role_id == guild_id ==> (r matches Err(e) && is_bad_request(e, message@)),
{
    if role_id == guild_id {
        Err(AppError::bad_request(message))
    } else {
        Ok(())
    }
}

/// The bits of a channel overwrite set by a member holding `actor`: the requested allow
/// and deny sets limited to what the member holds, never `ADMINISTRATOR`. `kind` is `0`
/// for a role, `1` for a member; the target must belong to the guild.
pub fn plan_overwrite(kind: u8, valid_target: bool, allow: Option<&str>, deny: Option<&str>, actor: u64) -> (r: Result<(u64, u64), AppError>)
    ensures
        kind > 1 ==> (r matches Err(e) && is_bad_request(e, "type de surcharge invalide (0 = rôle, 1 = membre)"@)),
        kind <= 1 && !valid_target ==> (r matches Err(e) && is_not_found(
            e,
            "cible de surcharge introuvable dans la guilde"@,
        )),
        kind <= 1 && valid_target ==> r == Ok::<(u64, u64), AppError>(
            (
                parsed_perms(opt_view(allow)) & (actor & !ADMINISTRATOR),
                parsed_perms(opt_view(deny)) & (actor & !ADMINISTRATOR),
            ),
        ),
        r matches Ok((a, d)) ==> a & !actor == 0 && d & !actor == 0 && a & ADMINISTRATOR == 0 && d
            & ADMINISTRATOR == 0,
{
    if kind > 1 {
        return Err(AppError::bad_request("type de surcharge invalide (0 = rôle, 1 = membre)"));
    }
    if !valid_target {
        return Err(AppError::not_found("cible de surcharge introuvable dans la guilde"));
    }
    let a = match allow {
        Some(s) => parse_permissions(s),
        None => 0,
    };
    let d = match deny {
        Some(s) => parse_permissions(s),
        None => 0,
    };
    Ok((overwrite_bits(a, actor), overwrite_bits(d, actor)))
}

} // verus!
