//! Polls carried by a channel message: what a new poll accepts, and which votes a user
//! may cast.

use vstd::prelude::*;
use crate::dms::{insert_sorted, strictly_increasing};
use crate::error::{AppError, is_bad_request, is_forbidden};
use crate::text::{char_count, trim, trim_spec};

verus! {

/// Most answers of a poll.
pub const MAX_ANSWERS: usize = 10;
/// Longest duration of a poll, in hours (32 days).
pub const MAX_DURATION_HOURS: i64 = 768;
/// Longest answer, in characters.
pub const MAX_ANSWER_CHARS: usize = 55;

/// A poll as it will be stored.
pub struct NewPoll {
    pub question: String,
    /// The answers, numbered from 1 in this order.
    pub answers: Vec<String>,
    pub expires_at: Option<i64>,
}

/// The answers kept: each trimmed, the blank ones dropped.
pub open spec fn kept_answers(answers: Seq<String>) -> Seq<Seq<char>> {
    answers.map_values(|a: String| trim_spec(a@)).filter(|t: Seq<char>| t.len() > 0)
}

/// Expiry of a poll lasting `duration_hours` (24 when absent) from `now`: none for a
/// duration that is not positive, else clamped to 1 to 768 hours.
pub open spec fn poll_expiry(now: i64, duration_hours: Option<i64>) -> Option<i64> {
    let d = match duration_hours {
        Some(h) => h,
        None => 24,
    };
    if d <= 0 {
        None
    } else {
        Some((now + (if d > 768 { 768 } else { d }) * 3_600_000) as i64)
    }
}

/// Checks a new poll: a trimmed question of 1 to 300 characters, 1 to 10 non-blank
/// answers of at most 55 characters each (trimmed).
pub fn check_new_poll(question: &str, answers: &Vec<String>, duration_hours: Option<i64>, now: i64) -> (r: Result<NewPoll, AppError>)
    requires
        now <= i64::MAX - MAX_DURATION_HOURS * 3_600_000,
    ensures
        ({
            let q = trim_spec(question@);
            let kept = kept_answers(answers@);
            if !(1 <= q.len() <= 300) {
                r matches Err(e) && is_bad_request(e, "question invalide (1 à 300 caractères)"@)
            } else if kept.len() == 0 || kept.len() > 10 {
                r matches Err(e) && is_bad_request(e, "entre 1 et 10 réponses"@)
            } else if exists|i: int| 0 <= i < kept.len() && #[trigger] kept[i].len() > 55 {
                r matches Err(e) && is_bad_request(e, "réponse trop longue (max 55 caractères)"@)
            } else {
                r matches Ok(p) && p.question@ == q && p.answers@.map_values(|a: String| a@) == kept
                    && p.expires_at == poll_expiry(now, duration_hours)
            }
        }),
{
    let q = trim(question);
    let n = char_count(q.as_str());
    if n == 0 || n > 300 {
        return Err(AppError::bad_request("question invalide (1 à 300 caractères)"));
    }
    let ghost trimmed = answers@.map_values(|a: String| trim_spec(a@));
    let ghost pred = |t: Seq<char>| t.len() > 0;
    let mut kept: Vec<String> = Vec::new();
    let mut too_long = false;
    let mut i: usize = 0;
    while i < answers.len()
        invariant
            0 <= i <= answers@.len(),
            trimmed == answers@.map_values(|a: String| trim_spec(a@)),
            pred == (|t: Seq<char>| t.len() > 0),
            kept@.map_values(|a: String| a@) == trimmed.take(i as int).filter(pred),
            too_long == exists|j: int| 0 <= j < kept@.len() && #[trigger] kept@[j]@.len() > 55,
        decreases answers.len() - i,
    {
        let t = trim(answers[i].as_str());
        let tn = char_count(t.as_str());
        proof {
            reveal(Seq::filter);
            assert(trimmed.take(i + 1).drop_last() =~= trimmed.take(i as int));
            assert(trimmed.take(i + 1).last() == t@);
        }
        let ghost before = kept@;
        if tn > 0 {
            if tn > MAX_ANSWER_CHARS {
                too_long = true;
            }
            kept.push(t);
            proof {
                assert(kept@.map_values(|a: String| a@) =~= before.map_values(|a: String| a@).push(
                    kept@[kept@.len() - 1]@,
                ));
                if too_long {
                    if tn > MAX_ANSWER_CHARS {
                        assert(kept@[kept@.len() - 1]@.len() > 55);
                    } else {
                        let j = choose|j: int| 0 <= j < before.len() && #[trigger] before[j]@.len() > 55;
                        assert(kept@[j]@.len() > 55);
                    }
                } else {
                    assert forall|j: int| 0 <= j < kept@.len() implies !(#[trigger] kept@[j]@.len() > 55) by {
                        if j < before.len() {
                            assert(kept@[j] == before[j]);
                        }
                    }
                }
            }
        } else {
            assert(trimmed.take(i as int).filter(pred) =~= trimmed.take(i + 1).filter(pred));
        }
        i = i + 1;
    }
    assert(trimmed.take(answers@.len() as int) =~= trimmed);
    let ghost kv = kept@.map_values(|a: String| a@);
    assert(kv.len() == kept@.len());
    if kept.len() == 0 || kept.len() > MAX_ANSWERS {
        return Err(AppError::bad_request("entre 1 et 10 réponses"));
    }
    proof {
        assert((exists|j: int| 0 <= j < kv.len() && #[trigger] kv[j].len() > 55) == too_long) by {
            if too_long {
                let j = choose|j: int| 0 <= j < kept@.len() && #[trigger] kept@[j]@.len() > 55;
                assert(kv[j].len() > 55);
            }
            if exists|j: int| 0 <= j < kv.len() && #[trigger] kv[j].len() > 55 {
                let j = choose|j: int| 0 <= j < kv.len() && #[trigger] kv[j].len() > 55;
                assert(kept@[j]@.len() > 55);
            }
        }
    }
    if too_long {
        return Err(AppError::bad_request("réponse trop longue (max 55 caractères)"));
    }
    let d = match duration_hours {
        Some(h) => h,
        None => 24,
    };
    let expires_at = if d <= 0 {
        None
    } else {
        let h = if d > MAX_DURATION_HOURS {
            MAX_DURATION_HOURS
        } else {
            d
        };
        Some(now + h * 3_600_000)
    };
    Ok(NewPoll { question: q, answers: kept, expires_at })
}

/// A poll is over once its expiry has passed.
pub open spec fn poll_finished(expires_at: Option<i64>, now: i64) -> bool {
    expires_at matches Some(e) && e < now
}

/// Whether a poll is over.
pub fn is_finished(expires_at: Option<i64>, now: i64) -> (r: bool)
    ensures
        r == poll_finished(expires_at, now),
{
    match expires_at {
        Some(e) => e < now,
        None => false,
    }
}

/// Checks the votes of a user: the poll must still run, every chosen answer must be one
/// of the poll's (`valid`), and a single-choice poll takes at most one. Answers the chosen
/// answers, each once, in increasing order; they replace the user's earlier votes.
pub fn check_vote(expires_at: Option<i64>, now: i64, multiselect: bool, valid: &Vec<i64>, answer_ids: &Vec<i64>) -> (r: Result<Vec<i64>, AppError>)
    ensures
        poll_finished(expires_at, now) ==> (r matches Err(e) && is_forbidden(e, "sondage terminé"@)),
        !poll_finished(expires_at, now) && !(forall|a: i64| answer_ids@.contains(a) ==> valid@.contains(a))
            ==> (r matches Err(e) && is_bad_request(e, "réponse de sondage invalide"@)),
        !poll_finished(expires_at, now) && (forall|a: i64| answer_ids@.contains(a) ==> valid@.contains(a))
            && !multiselect && answer_ids@.to_set().len() > 1 ==> (r matches Err(e) && is_bad_request(
            e,
            "ce sondage n'autorise qu'une seule réponse"@,
        )),
        !poll_finished(expires_at, now) && (forall|a: i64| answer_ids@.contains(a) ==> valid@.contains(a))
            && (multiselect || answer_ids@.to_set().len() <= 1) ==> (r matches Ok(v) && strictly_increasing(v@)
            && v@.to_set() == answer_ids@.to_set()),
        !multiselect ==> (r matches Ok(v) ==> v@.len() <= 1),
{
    if is_finished(expires_at, now) {
        return Err(AppError::forbidden("sondage terminé"));
    }
    let mut ids: Vec<i64> = Vec::new();
    let mut i: usize = 0;
    while i < answer_ids.len()
        invariant
            0 <= i <= answer_ids@.len(),
            !poll_finished(expires_at, now),
            strictly_increasing(ids@),
            ids@.to_set() == answer_ids@.take(i as int).to_set(),
        decreases answer_ids.len() - i,
    {
        let x = answer_ids[i];
        proof {
            assert(answer_ids@.take(i + 1) =~= answer_ids@.take(i as int).push(x));
            answer_ids@.take(i as int).lemma_push_to_set_commute(x);
        }
        insert_sorted(&mut ids, x);
        i = i + 1;
    }
    assert(answer_ids@.take(answer_ids@.len() as int) =~= answer_ids@);
    let mut k: usize = 0;
    while k < ids.len()
        invariant
            0 <= k <= ids@.len(),
            !poll_finished(expires_at, now),
            strictly_increasing(ids@),
            ids@.to_set() == answer_ids@.to_set(),
            forall|j: int| 0 <= j < k ==> valid@.contains(#[trigger] ids@[j]),
        decreases ids.len() - k,
    {
        let a = ids[k];
        let mut found = false;
        let mut q: usize = 0;
        while q < valid.len()
            invariant
                0 <= q <= valid@.len(),
                found == exists|j: int| 0 <= j < q && valid@[j] == a,
            decreases valid.len() - q,
        {
            if valid[q] == a {
                found = true;
            }
            q = q + 1;
        }
        if !found {
            proof {
                assert(ids@.to_set().contains(a));
                assert(answer_ids@.contains(a));
                assert(!valid@.contains(a));
            }
            return Err(AppError::bad_request("réponse de sondage invalide"));
        }
        k = k + 1;
    }
    proof {
        assert forall|a: i64| answer_ids@.contains(a) implies valid@.contains(a) by {
            assert(answer_ids@.to_set().contains(a));
            assert(ids@.to_set().contains(a));
            let j = choose|j: int| 0 <= j < ids@.len() && ids@[j] == a;
            assert(valid@.contains(ids@[j]));
        }
        assert(ids@.no_duplicates()) by {
            assert forall|a: int, b: int| 0 <= a < ids@.len() && 0 <= b < ids@.len() && a != b implies ids@[a]
                != ids@[b] by {
                if a < b {
                    assert(ids@[a] < ids@[b]);
                } else {
                    assert(ids@[b] < ids@[a]);
                }
            }
        }
        ids@.unique_seq_to_set();
    }
    if !multiselect && ids.len() > 1 {
        return Err(AppError::bad_request("ce sondage n'autorise qu'une seule réponse"));
    }
    Ok(ids)
}

} // verus!
