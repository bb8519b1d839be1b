//! Channel layout of a guild: categories, threads, the reordering of channels, and which
//! channels a member gets to see.

use vstd::prelude::*;
use crate::error::{AppError, is_bad_request, is_forbidden, is_not_found};
use crate::perms::{has, has_spec, VIEW_CHANNEL};
use crate::text::{char_count, trim, trim_spec};

verus! {

/// Channel type of a category.
pub const KIND_CATEGORY: i64 = 4;
/// Most items in one reordering request.
pub const MAX_REORDER_ITEMS: usize = 500;

/// A parent must be a category of the guild: `kind` is the type of the parent when it
/// exists in the guild.
pub fn check_category(kind: Option<i64>) -> (r: Result<(), AppError>)
    ensures
        kind is None ==> (r matches Err(e) && is_not_found(e, "catégorie parente introuvable"@)),
        kind matches Some(k) && k != KIND_CATEGORY ==> (r matches Err(e) && is_bad_request(
            e,
            "le parent n'est pas une catégorie"@,
        )),
        kind == Some(KIND_CATEGORY) ==> r is Ok,
{
    match kind {
        None => Err(AppError::not_found("catégorie parente introuvable")),
        Some(k) => if k != KIND_CATEGORY {
            Err(AppError::bad_request("le parent n'est pas une catégorie"))
        } else {
            Ok(())
        },
    }
}

/// Checks the start of a thread under the channel of type `parent_kind` in guild
/// `guild_id` (`0` for a conversation): only under a guild text or announcement channel,
/// with a trimmed name of 1 to 100 characters, which it answers.
pub fn check_new_thread(guild_id: i64, parent_kind: i64, name: &str) -> (r: Result<String, AppError>)
    ensures
        guild_id == 0 ==> (r matches Err(e) && is_bad_request(e, "les fils ne sont pas disponibles en message privé"@)),
        guild_id != 0 && !(parent_kind == 0 || parent_kind == 5) ==> (r matches Err(e) && is_bad_request(
            e,
            "un fil ne peut être créé que sous un salon texte ou d'annonces"@,
        )),
        guild_id != 0 && (parent_kind == 0 || parent_kind == 5) && !(1 <= trim_spec(name@).len() <= 100)
            ==> (r matches Err(e) && is_bad_request(e, "nom de fil invalide (1 à 100 caractères)"@)),
        guild_id != 0 && (parent_kind == 0 || parent_kind == 5) && 1 <= trim_spec(name@).len() <= 100
            ==> (r matches Ok(t) && t@ == trim_spec(name@)),
{
    if guild_id == 0 {
        return Err(AppError::bad_request("les fils ne sont pas disponibles en message privé"));
    }
    if !(parent_kind == 0 || parent_kind == 5) {
        return Err(AppError::bad_request("un fil ne peut être créé que sous un salon texte ou d'annonces"));
    }
    let t = trim(name);
    let n = char_count(t.as_str());
    if n == 0 || n > 100 {
        return Err(AppError::bad_request("nom de fil invalide (1 à 100 caractères)"));
    }
    Ok(t)
}

/// Only the owner may delete a guild.
pub fn check_guild_delete(owner_id: i64, user_id: i64) -> (r: Result<(), AppError>)
    ensures
        owner_id == user_id ==> r is Ok,
        owner_id != user_id ==> (r matches Err(e) && is_forbidden(e, "seul le propriétaire peut supprimer la guilde"@)),
{
    if owner_id != user_id {
        Err(AppError::forbidden("seul le propriétaire peut supprimer la guilde"))
    } else {
        Ok(())
    }
}

/// One entry of a reordering request: `parent_id` `Some(0)` moves the channel to the
/// root, `Some(p)` under category `p`, `None` keeps its parent.
#[derive(Clone, Copy, Debug)]
pub struct ChannelPosition {
    pub id: i64,
    pub position: i64,
    pub parent_id: Option<i64>,
}

/// What the store says about one entry: whether the channel is in the guild, and the
/// type of the requested parent when it exists in the guild.
#[derive(Clone, Copy, Debug)]
pub struct ReorderFacts {
    pub in_guild: bool,
    pub parent_kind: Option<i64>,
}

/// The parent a reordering gives a channel.
#[derive(Clone, Copy, Debug, PartialEq, Eq, Structural)]
pub enum ParentChange {
    Keep,
    Root,
    Under(i64),
}

/// One write of a reordering.
#[derive(Clone, Copy, Debug, PartialEq, Eq, Structural)]
pub struct ChannelMove {
    pub id: i64,
    pub position: i64,
    pub parent: ParentChange,
}

/// The parent change an entry asks for.
pub open spec fn parent_change(parent_id: Option<i64>) -> ParentChange {
    match parent_id {
        Some(p) => if p == 0 {
            ParentChange::Root
        } else {
            ParentChange::Under(p)
        },
        None => ParentChange::Keep,
    }
}

/// Whether an entry is refused, given what the store says of it.
pub open spec fn entry_refused(item: ChannelPosition, facts: ReorderFacts) -> bool {
    !facts.in_guild || (item.parent_id matches Some(p) && p != 0 && facts.parent_kind != Some(KIND_CATEGORY))
}

/// The write an accepted entry makes.
pub open spec fn entry_move(item: ChannelPosition) -> ChannelMove {
    ChannelMove { id: item.id, position: item.position, parent: parent_change(item.parent_id) }
}

/// Index of the first refused entry among the first `n`, or `n`.
pub open spec fn first_refused(items: Seq<ChannelPosition>, facts: Seq<ReorderFacts>, n: int) -> int
    decreases n,
{
    if n <= 0 {
        0
    } else if first_refused(items, facts, n - 1) < n - 1 {
        first_refused(items, facts, n - 1)
    } else if entry_refused(items[n - 1], facts[n - 1]) {
        n - 1
    } else {
        n
    }
}

/// Plans a reordering: entries are applied in order and the first refused one stops it,
/// the earlier ones staying applied. Answers the writes and the error, if any. More than
/// 500 entries are refused outright.
pub fn plan_channel_reorder(items: &Vec<ChannelPosition>, facts: &Vec<ReorderFacts>) -> (r: (Vec<ChannelMove>, Option<AppError>))
    requires
        items@.len() == facts@.len(),
    ensures
        items@.len() > 500 ==> r.0@.len() == 0 && (r.1 matches Some(e) && is_bad_request(e, "trop d'éléments"@)),
        items@.len() <= 500 ==> ({
            let k = first_refused(items@, facts@, items@.len() as int);
            &&& r.0@.len() == k
            &&& forall|i: int| 0 <= i < k ==> #[trigger] r.0@[i] == entry_move(items@[i])
            &&& k == items@.len() ==> r.1 is None
            &&& k < items@.len() ==> (if !facts@[k].in_guild {
                r.1 matches Some(e) && is_not_found(e, "salon hors de cette guilde"@)
            } else if facts@[k].parent_kind is None {
                r.1 matches Some(e) && is_not_found(e, "catégorie parente introuvable"@)
            } else {
                r.1 matches Some(e) && is_bad_request(e, "le parent n'est pas une catégorie"@)
            })
        }),
{
    let mut moves: Vec<ChannelMove> = Vec::new();
    if items.len() > MAX_REORDER_ITEMS {
        return (moves, Some(AppError::bad_request("trop d'éléments")));
    }
    let mut i: usize = 0;
    while i < items.len()
        invariant
            0 <= i <= items@.len(),
            items@.len() == facts@.len(),
            items@.len() <= 500,
            first_refused(items@, facts@, i as int) == i,
            moves@.len() == i,
            forall|j: int| 0 <= j < i ==> #[trigger] moves@[j] == entry_move(items@[j]),
        decreases items.len() - i,
    {
        let it = items[i];
        let f = facts[i];
        if !f.in_guild {
            proof {
                assert(first_refused(items@, facts@, i + 1) == i);
                lemma_first_refused_stays(items@, facts@, i + 1, items@.len() as int);
            }
            return (moves, Some(AppError::not_found("salon hors de cette guilde")));
        }
        let parent = match it.parent_id {
            Some(p) => if p == 0 {
                ParentChange::Root
            } else {
                match check_category(f.parent_kind) {
                    Ok(()) => {},
                    Err(e) => {
                        proof {
                            assert(first_refused(items@, facts@, i + 1) == i);
                            lemma_first_refused_stays(items@, facts@, i + 1, items@.len() as int);
                        }
                        return (moves, Some(e));
                    },
                }
                ParentChange::Under(p)
            },
            None => ParentChange::Keep,
        };
        moves.push(ChannelMove { id: it.id, position: it.position, parent });
        i = i + 1;
    }
    (moves, None)
}

proof fn lemma_first_refused_stays(items: Seq<ChannelPosition>, facts: Seq<ReorderFacts>, m: int, n: int)
    requires
        0 < m <= n,
        first_refused(items, facts, m) < m,
    ensures
        first_refused(items, facts, n) == first_refused(items, facts, m),
    decreases n - m,
{
    if n > m {
        lemma_first_refused_stays(items, facts, m, n - 1);
    }
}

/// The ids among `ids` whose permissions (same index in `perms`) include `VIEW_CHANNEL`,
/// in their order.
pub fn visible_ids(ids: &Vec<i64>, perms: &Vec<u64>) -> (r: Vec<i64>)
    requires
        ids@.len() == perms@.len(),
    ensures
        r@ == Seq::new(ids@.len(), |i: int| i).filter(|i: int| has_spec(perms@[i], VIEW_CHANNEL)).map_values(
            |i: int| ids@[i],
        ),
{
    let ghost idx = Seq::new(ids@.len(), |i: int| i);
    let ghost pred = |i: int| has_spec(perms@[i], VIEW_CHANNEL);
    let mut out: Vec<i64> = Vec::new();
    let mut i: usize = 0;
    while i < ids.len()
        invariant
            0 <= i <= ids@.len(),
            ids@.len() == perms@.len(),
            idx == Seq::new(ids@.len(), |i: int| i),
            pred == (|i: int| has_spec(perms@[i], VIEW_CHANNEL)),
            out@ == idx.take(i as int).filter(pred).map_values(|i: int| ids@[i]),
        decreases ids.len() - i,
    {
        proof {
            reveal(Seq::filter);
            assert(idx.take(i + 1).drop_last() =~= idx.take(i as int));
            assert(idx.take(i + 1).last() == i as int);
        }
        if has(perms[i], VIEW_CHANNEL) {
            out.push(ids[i]);
            assert(out@ =~= idx.take(i + 1).filter(pred).map_values(|i: int| ids@[i]));
        } else {
            assert(idx.take(i as int).filter(pred) =~= idx.take(i + 1).filter(pred));
        }
        i = i + 1;
    }
    assert(idx.take(ids@.len() as int) =~= idx);
    out
}

} // verus!
