//! Direct messages (one to one) and group conversations: who takes part, who owns a
//! group, and the order in which a user's conversations are listed.

use vstd::prelude::*;
use crate::error::{AppError, is_bad_request, is_forbidden, is_not_found};

verus! {

/// Channel type of a one-to-one conversation.
pub const DM_DIRECT: i64 = 1;
/// Channel type of a group conversation.
pub const DM_GROUP: i64 = 3;
/// Most participants in a group, its owner included.
pub const MAX_GROUP_SIZE: i64 = 10;

/// `s` is in strictly increasing order (so holds no id twice).
pub open spec fn strictly_increasing(s: Seq<i64>) -> bool {
    forall|i: int, j: int| 0 <= i < j < s.len() ==> s[i] < s[j]
}

/// Inserts `x` into the strictly increasing `v`, unless it is there already.
pub fn insert_sorted(v: &mut Vec<i64>, x: i64)
    requires
        strictly_increasing(old(v)@),
    ensures
        strictly_increasing(final(v)@),
        final(v)@.to_set() == old(v)@.to_set().insert(x),
{
    let mut p: usize = 0;
    while p < v.len() && v[p] < x
        invariant
            0 <= p <= v@.len(),
            forall|j: int| 0 <= j < p ==> v@[j] < x,
        decreases v.len() - p,
    {
        p = p + 1;
    }
    let ghost before = v@;
    if p < v.len() && v[p] == x {
        assert(before.to_set().insert(x) =~= before.to_set()) by {
            assert(before.to_set().contains(before[p as int]));
        }
        return;
    }
    v.insert(p, x);
    proof {
        let after = v@;
        assert(after.to_set() =~= before.to_set().insert(x)) by {
            assert forall|y: i64| after.to_set().contains(y) <==> before.to_set().insert(x).contains(y) by {
                if after.to_set().contains(y) {
                    let k = choose|k: int| 0 <= k < after.len() && after[k] == y;
                    if k < p {
                        assert(before[k] == y);
                    } else if k > p {
                        assert(before[k - 1] == y);
                    }
                }
                if before.to_set().contains(y) {
                    let k = choose|k: int| 0 <= k < before.len() && before[k] == y;
                    if k < p {
                        assert(after[k] == y);
                    } else {
                        assert(after[k + 1] == y);
                    }
                }
                if y == x {
                    assert(after[p as int] == x);
                }
            }
        }
    }
}

/// The recipients of a new conversation: the requested users other than the requester,
/// each once, in increasing order. At least one is needed, and at most nine (a group
/// holds ten participants with its creator).
pub fn dm_recipients(me: i64, requested: &Vec<i64>) -> (r: Result<Vec<i64>, AppError>)
    ensures
        ({
            let wanted = requested@.to_set().remove(me);
            &&& wanted.len() == 0 ==> (r matches Err(e) && is_bad_request(e, "au moins un destinataire requis"@))
            &&& wanted.len() > 9 ==> (r matches Err(e) && is_bad_request(
                e,
                "un groupe est limité à 10 participants"@,
            ))
            &&& 1 <= wanted.len() <= 9 ==> (r matches Ok(v) && strictly_increasing(v@) && v@.to_set() == wanted)
        }),
{
    let mut out: Vec<i64> = Vec::new();
    let mut i: usize = 0;
    while i < requested.len()
        invariant
            0 <= i <= requested@.len(),
            strictly_increasing(out@),
            out@.to_set() == requested@.take(i as int).to_set().remove(me),
        decreases requested.len() - i,
    {
        let x = requested[i];
        proof {
            assert(requested@.take(i + 1) =~= requested@.take(i as int).push(x));
            requested@.take(i as int).lemma_push_to_set_commute(x);
        }
        if x != me {
            insert_sorted(&mut out, x);
            assert(out@.to_set() =~= requested@.take(i + 1).to_set().remove(me));
        } else {
            assert(requested@.take(i as int).to_set().remove(me) =~= requested@.take(i + 1).to_set().remove(me));
        }
        i = i + 1;
    }
    assert(requested@.take(requested@.len() as int) =~= requested@);
    proof {
        assert(out@.no_duplicates()) by {
            assert forall|a: int, b: int| 0 <= a < out@.len() && 0 <= b < out@.len() && a != b implies out@[a]
                != out@[b] by {
                if a < b {
                    assert(out@[a] < out@[b]);
                } else {
                    assert(out@[b] < out@[a]);
                }
            }
        }
        out@.unique_seq_to_set();
    }
    if out.len() == 0 {
        return Err(AppError::bad_request("au moins un destinataire requis"));
    }
    if out.len() > 9 {
        return Err(AppError::bad_request("un groupe est limité à 10 participants"));
    }
    Ok(out)
}

/// Checks the addition of `target` to a group by one of its members: `kind` is the type
/// of the conversation when it exists, `count` its number of participants.
pub fn check_add_recipient(is_member: bool, kind: Option<i64>, target_exists: bool, count: i64) -> (r: Result<(), AppError>)
    ensures
        !is_member ==> (r matches Err(e) && is_forbidden(e, "vous ne faites pas partie de ce groupe"@)),
        is_member && kind is None ==> (r matches Err(e) && is_not_found(e, "groupe introuvable"@)),
        is_member && (kind matches Some(k) && k != DM_GROUP) ==> (r matches Err(e) && is_bad_request(
            e,
            "opération réservée aux groupes"@,
        )),
        is_member && kind == Some(DM_GROUP) && !target_exists ==> (r matches Err(e) && is_not_found(
            e,
            "destinataire introuvable"@,
        )),
        is_member && kind == Some(DM_GROUP) && target_exists && count >= MAX_GROUP_SIZE ==> (r matches Err(e)
            && is_bad_request(e, "groupe complet (10 participants maximum)"@)),
        is_member && kind == Some(DM_GROUP) && target_exists && count < MAX_GROUP_SIZE ==> r is Ok,
{
    if !is_member {
        return Err(AppError::forbidden("vous ne faites pas partie de ce groupe"));
    }
    let k = match kind {
        None => return Err(AppError::not_found("groupe introuvable")),
        Some(k) => k,
    };
    if k != DM_GROUP {
        return Err(AppError::bad_request("opération réservée aux groupes"));
    }
    if !target_exists {
        return Err(AppError::not_found("destinataire introuvable"));
    }
    if count >= MAX_GROUP_SIZE {
        return Err(AppError::bad_request("groupe complet (10 participants maximum)"));
    }
    Ok(())
}

/// Checks the removal of `target` from a group by `me`: anyone may leave, only the
/// owner may remove another member. `group` is the type and owner of the conversation
/// when it exists.
pub fn check_remove_recipient(me: i64, target: i64, is_member: bool, group: Option<(i64, Option<i64>)>) -> (r: Result<(), AppError>)
    ensures
        !is_member ==> (r matches Err(e) && is_forbidden(e, "vous ne faites pas partie de ce groupe"@)),
        is_member && group is None ==> (r matches Err(e) && is_not_found(e, "groupe introuvable"@)),
        is_member && (group matches Some((k, _)) && k != DM_GROUP) ==> (r matches Err(e) && is_bad_request(
            e,
            "opération réservée aux groupes"@,
        )),
        is_member && group is Some && group->Some_0.0 == DM_GROUP ==> (if target != me && group->Some_0.1 != Some(me) {
            r matches Err(e) && is_forbidden(e, "seul le propriétaire peut retirer un autre membre"@)
        } else {
            r is Ok
        }),
{
    if !is_member {
        return Err(AppError::forbidden("vous ne faites pas partie de ce groupe"));
    }
    let (k, owner) = match group {
        None => return Err(AppError::not_found("groupe introuvable")),
        Some(g) => g,
    };
    if k != DM_GROUP {
        return Err(AppError::bad_request("opération réservée aux groupes"));
    }
    let owner_is_me = match owner {
        Some(o) => o == me,
        None => false,
    };
    if target != me && !owner_is_me {
        return Err(AppError::forbidden("seul le propriétaire peut retirer un autre membre"));
    }
    Ok(())
}

/// What becomes of a group after a removal.
#[derive(Clone, Copy, Debug, PartialEq, Eq, Structural)]
pub enum GroupAfterRemoval {
    /// The owner stays.
    Unchanged,
    /// The owner left: the remaining participant with the smallest id owns the group.
    NewOwner(i64),
    /// The owner left an empty group: it is deleted with its messages.
    Delete,
}

/// What becomes of a group after `removed` left; `remaining` are the participants left.
pub fn after_removal(removed: i64, owner: Option<i64>, remaining: &Vec<i64>) -> (r: GroupAfterRemoval)
    ensures
        owner != Some(removed) ==> r == GroupAfterRemoval::Unchanged,
        owner == Some(removed) && remaining@.len() == 0 ==> r == GroupAfterRemoval::Delete,
        owner == Some(removed) && remaining@.len() > 0 ==> (r matches GroupAfterRemoval::NewOwner(n)
            && remaining@.contains(n) && forall|i: int| 0 <= i < remaining@.len() ==> n <= #[trigger] remaining@[i]),
{
    let leaves = match owner {
        Some(o) => o == removed,
        None => false,
    };
    if !leaves {
        return GroupAfterRemoval::Unchanged;
    }
    if remaining.len() == 0 {
        return GroupAfterRemoval::Delete;
    }
    let mut best: i64 = remaining[0];
    let mut i: usize = 1;
    assert(remaining@.take(1)[0] == best);
    while i < remaining.len()
        invariant
            1 <= i <= remaining@.len(),
            remaining@.take(i as int).contains(best),
            forall|j: int| 0 <= j < i ==> best <= #[trigger] remaining@[j],
        decreases remaining.len() - i,
    {
        if remaining[i] < best {
            best = remaining[i];
            assert(remaining@.take(i + 1)[i as int] == best);
        } else {
            proof {
                let k = choose|k: int| 0 <= k < i && remaining@.take(i as int)[k] == best;
                assert(remaining@.take(i + 1)[k] == best);
            }
        }
        i = i + 1;
    }
    assert(remaining@.take(remaining@.len() as int) =~= remaining@);
    GroupAfterRemoval::NewOwner(best)
}

/// Listing key of a conversation: the id of its last message, `0` when it has none.
pub open spec fn dm_key(last: Option<u64>) -> u64 {
    match last {
        Some(m) => m,
        None => 0,
    }
}

/// `order` lists each index of `keys` once.
pub open spec fn is_permutation_of_indices(order: Seq<usize>, n: int) -> bool {
    &&& order.len() == n
    &&& forall|p: int| 0 <= p < order.len() ==> order[p] < n
    &&& forall|p: int, q: int| 0 <= p < q < order.len() ==> order[p] != order[q]
}

/// `order` lists the conversations with the most recent activity first; conversations
/// with the same key keep their input order.
pub open spec fn dm_order_ok(order: Seq<usize>, lasts: Seq<Option<u64>>) -> bool {
    &&& is_permutation_of_indices(order, lasts.len() as int)
    &&& forall|p: int, q: int| 0 <= p < q < order.len() ==> dm_key(lasts[order[p] as int]) >= dm_key(
        lasts[order[q] as int],
    )
    &&& forall|p: int, q: int|
        0 <= p < q < order.len() && dm_key(lasts[order[p] as int]) == dm_key(lasts[order[q] as int])
            ==> order[p] < order[q]
}

fn key_at(lasts: &Vec<Option<u64>>, i: usize) -> (k: u64)
    requires
        i < lasts@.len(),
    ensures
        k == dm_key(lasts@[i as int]),
{
    match lasts[i] {
        Some(m) => m,
        None => 0,
    }
}

/// The listing order of a user's conversations from the last message id of each: most
/// recent first, ties kept in their input order (a stable sort).
pub fn order_dm_channels(lasts: &Vec<Option<u64>>) -> (order: Vec<usize>)
    ensures
        dm_order_ok(order@, lasts@),
{
    let mut order: Vec<usize> = Vec::new();
    let mut i: usize = 0;
    while i < lasts.len()
        invariant
            0 <= i <= lasts@.len(),
            order@.len() == i,
            forall|p: int| 0 <= p < order@.len() ==> order@[p] < i,
            forall|p: int, q: int| 0 <= p < q < order@.len() ==> order@[p] != order@[q],
            forall|p: int, q: int| 0 <= p < q < order@.len() ==> dm_key(lasts@[order@[p] as int]) >= dm_key(
                lasts@[order@[q] as int],
            ),
            forall|p: int, q: int|
                0 <= p < q < order@.len() && dm_key(lasts@[order@[p] as int]) == dm_key(
                    lasts@[order@[q] as int],
                ) ==> order@[p] < order@[q],
        decreases lasts.len() - i,
    {
        let k = key_at(lasts, i);
        let mut p: usize = 0;
        while p < order.len() && key_at(lasts, order[p]) >= k
            invariant
                0 <= p <= order@.len(),
                i < lasts@.len(),
                forall|q: int| 0 <= q < order@.len() ==> order@[q] < lasts@.len(),
                k == dm_key(lasts@[i as int]),
                forall|q: int| 0 <= q < order@.len() ==> order@[q] < i,
                forall|q: int| 0 <= q < p ==> dm_key(lasts@[order@[q] as int]) >= k,
            decreases order.len() - p,
        {
            p = p + 1;
        }
        let ghost before = order@;
        proof {
            if p < before.len() {
                assert(dm_key(lasts@[before[p as int] as int]) < k);
            }
        }
        order.insert(p, i);
        proof {
            let after = order@;
            assert forall|a: int, b: int| 0 <= a < b < after.len() implies dm_key(lasts@[after[a] as int])
                >= dm_key(lasts@[after[b] as int]) by {
                if a < p && b < p {
                    assert(after[a] == before[a] && after[b] == before[b]);
                } else if a < p && b == p {
                } else if a < p && b > p {
                    assert(after[a] == before[a] && after[b] == before[b - 1]);
                } else if a == p {
                    assert(after[b] == before[b - 1]);
                    assert(dm_key(lasts@[before[p as int] as int]) < k);
                    if b - 1 > p {
                        assert(dm_key(lasts@[before[p as int] as int]) >= dm_key(lasts@[before[b - 1] as int]));
                    }
                } else {
                    assert(after[a] == before[a - 1] && after[b] == before[b - 1]);
                }
            }
            assert forall|a: int, b: int|
                0 <= a < b < after.len() && dm_key(lasts@[after[a] as int]) == dm_key(lasts@[after[b] as int])
                    implies after[a] < after[b] by {
                if a < p && b < p {
                    assert(after[a] == before[a] && after[b] == before[b]);
                } else if a < p && b == p {
                    assert(after[a] == before[a]);
                } else if a < p && b > p {
                    assert(after[a] == before[a] && after[b] == before[b - 1]);
                } else if a == p {
                    assert(after[b] == before[b - 1]);
                    assert(dm_key(lasts@[before[p as int] as int]) < k);
                    if b - 1 > p {
                        assert(dm_key(lasts@[before[p as int] as int]) >= dm_key(lasts@[before[b - 1] as int]));
                    }
                } else {
                    assert(after[a] == before[a - 1] && after[b] == before[b - 1]);
                }
            }
            assert forall|a: int, b: int| 0 <= a < b < after.len() implies after[a] != after[b] by {
                if a < p && b < p {
                    assert(after[a] == before[a] && after[b] == before[b]);
                } else if a < p && b == p {
                    assert(after[a] == before[a]);
                } else if a < p && b > p {
                    assert(after[a] == before[a] && after[b] == before[b - 1]);
                } else if a == p {
                    assert(after[b] == before[b - 1]);
                } else {
                    assert(after[a] == before[a - 1] && after[b] == before[b - 1]);
                }
            }
            assert forall|a: int| 0 <= a < after.len() implies after[a] < i + 1 by {
                if a < p {
                    assert(after[a] == before[a]);
                } else if a > p {
                    assert(after[a] == before[a - 1]);
                }
            }
        }
        i = i + 1;
    }
    order
}

} // verus!
