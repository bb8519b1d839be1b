//! Listing and search queries: their parameters, the safe full-text query built from user
//! text, and the plan of a message search.

use vstd::prelude::*;
use crate::error::{AppError, is_bad_request, is_not_found};
use crate::numbers::{parse_i64, parse_i64_spec};
use crate::text::{
    chars_of, concat, is_whitespace, is_whitespace_spec, str_eq, string_from_chars, trim, trim_spec,
};

verus! {

/// `GET /channels/:id/messages` parameters.
pub struct MsgQuery {
    pub limit: Option<i64>,
    pub before: Option<String>,
    pub after: Option<String>,
    pub around: Option<String>,
}

/// Message search parameters.
pub struct SearchQuery {
    /// Full-text search (empty: no text filter).
    pub q: Option<String>,
    /// Restrict a guild search to one channel.
    pub channel_id: Option<String>,
    pub author_id: Option<String>,
    /// `link`: messages holding a link (other values match nothing yet).
    pub has: Option<String>,
    pub pinned: Option<bool>,
    pub before: Option<String>,
    pub after: Option<String>,
    /// `recent` (default), `old`, or `relevance` (with `q`).
    pub sort: Option<String>,
    pub limit: Option<i64>,
    pub offset: Option<i64>,
}

/// Mention inbox parameters.
pub struct InboxQuery {
    pub limit: Option<i64>,
}

/// Guild discovery parameters.
pub struct DiscoveryQuery {
    pub q: Option<String>,
    pub limit: Option<i64>,
}

/// Member list parameters: cursor (`after` = last user id), page size and name search.
pub struct MemberQuery {
    pub after: Option<String>,
    pub limit: Option<i64>,
    pub query: Option<String>,
}

/// Webhook execution parameters.
pub struct ExecQuery {
    pub wait: Option<bool>,
}

// ───────────────────────────── Full-text query ─────────────────────────────

/// Words of a text split on whitespace: the completed words and the word in progress.
pub open spec fn words_state(s: Seq<char>) -> (Seq<Seq<char>>, Seq<char>)
    decreases s.len(),
{
    if s.len() == 0 {
        (Seq::empty(), Seq::empty())
    } else {
        let (ws, cur) = words_state(s.drop_last());
        if is_whitespace_spec(s.last()) {
            if cur.len() > 0 {
                (ws.push(cur), Seq::empty())
            } else {
                (ws, Seq::empty())
            }
        } else {
            (ws, cur.push(s.last()))
        }
    }
}

/// The whitespace-separated words of `s`, in order (what `str::split_whitespace` yields).
pub open spec fn words(s: Seq<char>) -> Seq<Seq<char>> {
    let (ws, cur) = words_state(s);
    if cur.len() > 0 {
        ws.push(cur)
    } else {
        ws
    }
}

/// `t` with every `"` doubled.
pub open spec fn escape_quotes(t: Seq<char>) -> Seq<char>
    decreases t.len(),
{
    if t.len() == 0 {
        Seq::empty()
    } else {
        escape_quotes(t.drop_last()) + if t.last() == '"' {
            seq!['"', '"']
        } else {
            seq![t.last()]
        }
    }
}

/// `t` as an FTS5 phrase: quoted, inner quotes doubled.
pub open spec fn quote_term(t: Seq<char>) -> Seq<char> {
    seq!['"'] + escape_quotes(t) + seq!['"']
}

/// The quoted words joined by single spaces.
pub open spec fn join_quoted(ws: Seq<Seq<char>>) -> Seq<char>
    decreases ws.len(),
{
    if ws.len() == 0 {
        Seq::empty()
    } else if ws.len() == 1 {
        quote_term(ws[0])
    } else {
        join_quoted(ws.drop_last()) + seq![' '] + quote_term(ws.last())
    }
}

/// A safe FTS5 query for the user text `q`: each word becomes a quoted phrase, so no FTS
/// operator can be injected; absent when there is no word.
pub open spec fn fts_query_spec(q: Seq<char>) -> Option<Seq<char>> {
    if words(q).len() == 0 {
        None
    } else {
        Some(join_quoted(words(q)))
    }
}

/// Text written so far for a prefix whose split state is `(ws, cur)`.
pub open spec fn rendered(ws: Seq<Seq<char>>, cur: Seq<char>) -> Seq<char> {
    if cur.len() == 0 {
        join_quoted(ws)
    } else if ws.len() == 0 {
        seq!['"'] + escape_quotes(cur)
    } else {
        join_quoted(ws) + seq![' '] + seq!['"'] + escape_quotes(cur)
    }
}

/// Builds the FTS5 query of a user text (see [`fts_query_spec`]).
pub fn fts_query(q: &str) -> (r: Option<String>)
    ensures
        match fts_query_spec(q@) {
            Some(t) => r is Some && r->0@ == t,
            None => r is None,
        },
{
    let v = chars_of(q);
    let mut out: Vec<char> = Vec::new();
    let mut in_word = false;
    let mut any_word = false;
    let mut i: usize = 0;
    while i < v.len()
        invariant
            0 <= i <= v.len(),
            v@ == q@,
            ({
                let (ws, cur) = words_state(v@.take(i as int));
                &&& out@ == rendered(ws, cur)
                &&& in_word == (cur.len() > 0)
                &&& any_word == (ws.len() > 0 || cur.len() > 0)
            }),
        decreases v.len() - i,
    {
        let c = v[i];
        let ghost p = v@.take(i as int);
        let ghost (ws, cur) = words_state(p);
        assert(v@.take(i + 1).drop_last() == p);
        assert(v@.take(i + 1).last() == c);
        if is_whitespace(c) {
            if in_word {
                let ghost before = out@;
                out.push('"');
                proof {
                    let nws = ws.push(cur);
                    assert(nws.drop_last() == ws);
                    if ws.len() == 0 {
                        assert(join_quoted(nws) == quote_term(cur));
                    }
                    assert(out@ =~= join_quoted(nws));
                }
                in_word = false;
            }
        } else {
            let ghost before = out@;
            if !in_word {
                if any_word {
                    out.push(' ');
                }
                out.push('"');
                in_word = true;
                any_word = true;
            }
            let ghost mid = out@;
            out.push(c);
            if c == '"' {
                out.push('"');
            }
            proof {
                let ncur = cur.push(c);
                assert(ncur.drop_last() == cur);
                assert(escape_quotes(ncur) == escape_quotes(cur) + if c == '"' {
                    seq!['"', '"']
                } else {
                    seq![c]
                });
                if cur.len() == 0 {
                    assert(escape_quotes(cur) =~= Seq::<char>::empty());
                }
                assert(out@ =~= rendered(ws, ncur));
            }
        }
        i = i + 1;
    }
    assert(v@.take(v.len() as int) == v@);
    if in_word {
        out.push('"');
        proof {
            let (ws, cur) = words_state(v@);
            let nws = ws.push(cur);
            assert(nws.drop_last() == ws);
            assert(out@ =~= join_quoted(nws));
        }
    }
    if !any_word {
        return None;
    }
    proof {
        let (ws, cur) = words_state(v@);
        assert(words(v@).len() > 0);
    }
    Some(string_from_chars(&out))
}

/// `words` and the gaps around them put back together: `gaps[0]`, `words[0]`, `gaps[1]`,
/// ..., `words[n - 1]`, `gaps[n]`.
pub open spec fn interleave(gaps: Seq<Seq<char>>, words: Seq<Seq<char>>) -> Seq<char>
    decreases words.len(),
{
    if words.len() == 0 || gaps.len() == 0 {
        if gaps.len() > 0 {
            gaps[0]
        } else {
            Seq::empty()
        }
    } else {
        interleave(gaps.drop_last(), words.drop_last()) + words.last() + gaps.last()
    }
}

/// Every character of `s` is whitespace.
pub open spec fn all_whitespace(s: Seq<char>) -> bool {
    forall|j: int| 0 <= j < s.len() ==> is_whitespace_spec(#[trigger] s[j])
}

/// The whitespace around the words of `s`: the gaps before, between and after the
/// completed words, the last one growing until a new word begins.
pub open spec fn gaps_state(s: Seq<char>) -> Seq<Seq<char>>
    decreases s.len(),
{
    if s.len() == 0 {
        seq![Seq::<char>::empty()]
    } else {
        let g = gaps_state(s.drop_last());
        let (ws, cur) = words_state(s.drop_last());
        if is_whitespace_spec(s.last()) {
            if cur.len() > 0 {
                g.push(seq![s.last()])
            } else {
                g.update(g.len() - 1, g.last().push(s.last()))
            }
        } else {
            g
        }
    }
}

proof fn lemma_interleave_grow_last_gap(gaps: Seq<Seq<char>>, words: Seq<Seq<char>>, c: char)
    requires
        gaps.len() == words.len() + 1,
    ensures
        interleave(gaps.update(gaps.len() - 1, gaps.last().push(c)), words) == interleave(
            gaps,
            words,
        ).push(c),
{
    let g2 = gaps.update(gaps.len() - 1, gaps.last().push(c));
    if words.len() > 0 {
        assert(g2.drop_last() =~= gaps.drop_last());
    }
}

/// The split state of `s` rebuilds `s`: the completed words with their gaps, then the
/// word in progress; words and the word in progress hold no whitespace, gaps nothing else.
proof fn lemma_words_state_rebuilds(s: Seq<char>)
    ensures
        ({
            let (ws, cur) = words_state(s);
            let g = gaps_state(s);
            &&& g.len() == ws.len() + 1
            &&& s == interleave(g, ws) + cur
            &&& forall|i: int| 0 < i < g.len() - 1 ==> (#[trigger] g[i]).len() > 0
            &&& ws.len() > 0 ==> g.last().len() > 0
            &&& forall|i: int| 0 <= i < g.len() ==> all_whitespace(#[trigger] g[i])
            &&& forall|i: int| 0 <= i < ws.len() ==> (#[trigger] ws[i]).len() > 0
            &&& forall|i: int, j: int|
                0 <= i < ws.len() && 0 <= j < ws[i].len() ==> !is_whitespace_spec(#[trigger] ws[i][j])
            &&& forall|j: int| 0 <= j < cur.len() ==> !is_whitespace_spec(#[trigger] cur[j])
            &&& (ws.len() == 0 && cur.len() == 0) <==> all_whitespace(s)
        }),
    decreases s.len(),
{
    if s.len() == 0 {
        assert(interleave(seq![Seq::<char>::empty()], Seq::<Seq<char>>::empty()) =~= Seq::<char>::empty());
    } else {
        let p = s.drop_last();
        let c = s.last();
        lemma_words_state_rebuilds(p);
        let (ws, cur) = words_state(p);
        let g = gaps_state(p);
        assert(p.push(c) =~= s);
        if is_whitespace_spec(c) {
            if cur.len() > 0 {
                let nws = ws.push(cur);
                let ng = g.push(seq![c]);
                assert(ng.drop_last() =~= g);
                assert(nws.drop_last() =~= ws);
                assert(interleave(ng, nws) == interleave(g, ws) + cur + seq![c]);
                assert(s =~= interleave(g, ws) + cur + seq![c]);
                assert(all_whitespace(seq![c]));
                assert forall|i: int| 0 < i < ng.len() - 1 implies (#[trigger] ng[i]).len() > 0 by {
                    assert(ng[i] == g[i]);
                }
                assert forall|i: int| 0 <= i < ng.len() implies all_whitespace(#[trigger] ng[i]) by {
                    if i < g.len() {
                        assert(ng[i] == g[i]);
                    }
                }
                assert forall|i: int, j: int|
                    0 <= i < nws.len() && 0 <= j < nws[i].len() implies !is_whitespace_spec(
                    #[trigger] nws[i][j],
                ) by {
                    if i == ws.len() {
                        assert(nws[i] == cur);
                    } else {
                        assert(nws[i] == ws[i]);
                    }
                }
                assert(!all_whitespace(s)) by {
                    assert(s[p.len() - 1] == cur.last());
                    assert(cur.last() == cur[cur.len() - 1]);
                    let k = p.len() - 1;
                    assert(p =~= interleave(g, ws) + cur);
                    assert(p[k] == cur[cur.len() - 1]);
                    assert(s[k] == p[k]);
                }
            } else {
                let ng = g.update(g.len() - 1, g.last().push(c));
                lemma_interleave_grow_last_gap(g, ws, c);
                assert(s =~= interleave(g, ws).push(c));
                assert(cur =~= Seq::<char>::empty());
                assert(interleave(ng, ws) + cur =~= interleave(ng, ws));
                assert forall|i: int| 0 < i < ng.len() - 1 implies (#[trigger] ng[i]).len() > 0 by {
                    assert(ng[i] == g[i]);
                }
                assert forall|i: int| 0 <= i < ng.len() implies all_whitespace(#[trigger] ng[i]) by {
                    if i != g.len() - 1 {
                        assert(ng[i] == g[i]);
                    } else {
                        assert forall|j: int| 0 <= j < ng[i].len() implies is_whitespace_spec(
                            #[trigger] ng[i][j],
                        ) by {
                            if j < g.last().len() {
                                assert(ng[i][j] == g[i][j]);
                            }
                        }
                    }
                }
                if all_whitespace(p) {
                    assert forall|j: int| 0 <= j < s.len() implies is_whitespace_spec(#[trigger] s[j]) by {
                        if j < p.len() {
                            assert(s[j] == p[j]);
                        }
                    }
                } else {
                    let j = choose|j: int| 0 <= j < p.len() && !is_whitespace_spec(#[trigger] p[j]);
                    assert(s[j] == p[j]);
                }
            }
        } else {
            let ncur = cur.push(c);
            assert(s =~= interleave(g, ws) + ncur);
            assert forall|j: int| 0 <= j < ncur.len() implies !is_whitespace_spec(#[trigger] ncur[j]) by {
                if j < cur.len() {
                    assert(ncur[j] == cur[j]);
                }
            }
            assert(!all_whitespace(s)) by {
                assert(s[s.len() - 1] == c);
            }
        }
    }
}

/// The words of a text, as `str::split_whitespace` yields them: the text is the words
/// with runs of whitespace around them, no word is empty or holds whitespace, words are
/// separated by at least one whitespace character, and there is no word exactly when
/// the text is all whitespace (then the full-text query is absent).
pub proof fn law_words_split_on_whitespace(q: Seq<char>)
    ensures
        exists|gaps: Seq<Seq<char>>|
            {
                &&& gaps.len() == words(q).len() + 1
                &&& q == #[trigger] interleave(gaps, words(q))
                &&& forall|i: int| 0 <= i < gaps.len() ==> all_whitespace(#[trigger] gaps[i])
                &&& forall|i: int| 0 < i < words(q).len() ==> (#[trigger] gaps[i]).len() > 0
            },
        forall|i: int| 0 <= i < words(q).len() ==> (#[trigger] words(q)[i]).len() > 0,
        forall|i: int, j: int|
            0 <= i < words(q).len() && 0 <= j < words(q)[i].len() ==> !is_whitespace_spec(
                #[trigger] words(q)[i][j],
            ),
        (words(q).len() == 0) <==> all_whitespace(q),
        (fts_query_spec(q) is None) <==> all_whitespace(q),
{
    lemma_words_state_rebuilds(q);
    let (ws, cur) = words_state(q);
    let g = gaps_state(q);
    if cur.len() > 0 {
        let nws = ws.push(cur);
        let ng = g.push(Seq::<char>::empty());
        assert(ng.drop_last() =~= g);
        assert(nws.drop_last() =~= ws);
        assert(interleave(ng, nws) =~= interleave(g, ws) + cur);
        assert(words(q) == nws);
        assert(all_whitespace(Seq::<char>::empty()));
        assert forall|i: int| 0 < i < nws.len() implies (#[trigger] ng[i]).len() > 0 by {
            if i < g.len() - 1 {
                assert(ng[i] == g[i]);
            } else {
                assert(ng[i] == g.last());
            }
        }
        assert forall|i: int| 0 <= i < ng.len() implies all_whitespace(#[trigger] ng[i]) by {
            if i < g.len() {
                assert(ng[i] == g[i]);
            }
        }
        assert forall|i: int, j: int|
            0 <= i < nws.len() && 0 <= j < nws[i].len() implies !is_whitespace_spec(
            #[trigger] nws[i][j],
        ) by {
            if i == ws.len() {
                assert(nws[i] == cur);
            } else {
                assert(nws[i] == ws[i]);
            }
        }
        assert(q == interleave(ng, nws));
    } else {
        assert(words(q) == ws);
        assert(q =~= interleave(g, ws));
        assert forall|i: int| 0 < i < ws.len() implies (#[trigger] g[i]).len() > 0 by {
            if i == g.len() - 1 {
            }
        }
        assert(q == interleave(g, ws));
    }
}

// ───────────────────────────── Search plan ─────────────────────────────

/// Ordering of search results.
#[derive(Clone, Copy, Debug, PartialEq, Eq)]
pub enum SearchOrder {
    /// Newest first.
    Recent,
    /// Oldest first.
    Old,
    /// FTS rank (only with a text query).
    Relevance,
}

/// A validated message search.
pub struct SearchPlan {
    pub fts: Option<String>,
    pub author_id: Option<i64>,
    pub before: Option<i64>,
    pub after: Option<i64>,
    pub pinned: Option<bool>,
    pub has_link: bool,
    pub order: SearchOrder,
    pub limit: i64,
    pub offset: i64,
}

/// What a search amounts to.
pub enum SearchOutcome {
    /// Nothing can match (no readable channel, or an unsupported `has` filter).
    Empty,
    Run(SearchPlan),
}

/// Parses an optional id; `None` stays `None`.
fn parse_opt_id(s: &Option<String>) -> (r: Result<Option<i64>, AppError>)
    ensures
        match s {
            None => r == Ok::<Option<i64>, AppError>(None),
            Some(t) => match parse_i64_spec_result(t@) {
                Ok(v) => r == Ok::<Option<i64>, AppError>(Some(v)),
                Err(()) => r is Err && parse_i64_spec(t@, Err(r->Err_0)),
            },
        },
{
    match s {
        None => Ok(None),
        Some(t) => match parse_i64(t.as_str()) {
            Ok(v) => Ok(Some(v)),
            Err(e) => Err(e),
        },
    }
}

/// Value of a parsed id, or `Err(())` when unreadable.
pub open spec fn parse_i64_spec_result(s: Seq<char>) -> Result<i64, ()> {
    match crate::numbers::parse_u64_spec(s) {
        Some(v) => Ok(v as i64),
        None => Err(()),
    }
}

/// Plans a message search over `channel_count` readable channels: an unsupported `has`
/// filter or no channel matches nothing; ids must parse; 25 results by default, clamped
/// to `1..=50`, offset at least 0; `relevance` needs a text query.
pub fn plan_search(channel_count: usize, q: &SearchQuery) -> (r: Result<SearchOutcome, AppError>)
    ensures
        channel_count == 0 ==> r matches Ok(SearchOutcome::Empty),
        channel_count > 0 && q.has is Some && q.has->0@ != "link"@ ==> r matches Ok(
            SearchOutcome::Empty,
        ),
        r matches Ok(SearchOutcome::Run(p)) ==> {
            &&& channel_count > 0
            &&& p.has_link == (q.has is Some)
            &&& match fts_query_spec(
                match q.q {
                    Some(t) => t@,
                    None => Seq::empty(),
                },
            ) {
                Some(t) => q.q is Some && p.fts is Some && p.fts->0@ == t,
                None => p.fts is None,
            }
            &&& (q.author_id is Some ==> p.author_id == parse_i64_spec_result(
                q.author_id->0@,
            ).ok())
            &&& (q.author_id is None ==> p.author_id is None)
            &&& (q.before is Some ==> p.before == parse_i64_spec_result(q.before->0@).ok())
            &&& (q.before is None ==> p.before is None)
            &&& (q.after is Some ==> p.after == parse_i64_spec_result(q.after->0@).ok())
            &&& (q.after is None ==> p.after is None)
            &&& p.pinned == q.pinned
            &&& 1 <= p.limit <= 50
            &&& p.limit == match q.limit {
                Some(l) => if l < 1 {
                    1
                } else if l > 50 {
                    50
                } else {
                    l
                },
                None => 25,
            }
            &&& p.offset == match q.offset {
                Some(o) => if o < 0 {
                    0
                } else {
                    o
                },
                None => 0,
            }
            &&& p.order == if q.sort is Some && q.sort->0@ == "old"@ {
                SearchOrder::Old
            } else if q.sort is Some && q.sort->0@ == "relevance"@ && p.fts is Some {
                SearchOrder::Relevance
            } else {
                SearchOrder::Recent
            }
        },
        r is Err <==> channel_count > 0 && (q.has is None || q.has->0@ == "link"@) && (
        (q.author_id is Some && parse_i64_spec_result(q.author_id->0@) is Err) || (q.before is Some
            && parse_i64_spec_result(q.before->0@) is Err) || (q.after is Some
            && parse_i64_spec_result(q.after->0@) is Err)),
        r matches Err(e) ==> is_bad_request(e, "identifiant invalide"@),
        channel_count > 0 && (q.has is None || q.has->0@ == "link"@) && r is Ok ==> r matches Ok(
            SearchOutcome::Run(_),
        ),
{
    if channel_count == 0 {
        return Ok(SearchOutcome::Empty);
    }
    let has_link = match &q.has {
        None => false,
        Some(h) => if str_eq(h.as_str(), "link") {
            true
        } else {
            return Ok(SearchOutcome::Empty);
        },
    };
    let fts = match &q.q {
        Some(t) => fts_query(t.as_str()),
        None => {
            proof {
                reveal_with_fuel(words_state, 1);
                assert(words(Seq::<char>::empty()).len() == 0);
            }
            None
        },
    };
    let author_id = match parse_opt_id(&q.author_id) {
        Ok(v) => v,
        Err(e) => return Err(e),
    };
    let before = match parse_opt_id(&q.before) {
        Ok(v) => v,
        Err(e) => return Err(e),
    };
    let after = match parse_opt_id(&q.after) {
        Ok(v) => v,
        Err(e) => return Err(e),
    };
    let order = match &q.sort {
        Some(s) => if str_eq(s.as_str(), "old") {
            SearchOrder::Old
        } else if str_eq(s.as_str(), "relevance") && fts.is_some() {
            SearchOrder::Relevance
        } else {
            SearchOrder::Recent
        },
        None => SearchOrder::Recent,
    };
    let limit = match q.limit {
        Some(l) => if l < 1 {
            1
        } else if l > 50 {
            50
        } else {
            l
        },
        None => 25,
    };
    let offset = match q.offset {
        Some(o) => if o < 0 {
            0
        } else {
            o
        },
        None => 0,
    };
    Ok(
        SearchOutcome::Run(
            SearchPlan {
                fts,
                author_id,
                before,
                after,
                pinned: q.pinned,
                has_link,
                order,
                limit,
                offset,
            },
        ),
    )
}

/// Page size of a listing: `default` when absent, clamped to `1..=max`.
pub fn clamp_limit(limit: Option<i64>, default: i64, max: i64) -> (r: i64)
    requires
        1 <= max,
    ensures
        r == match limit {
            Some(l) => if l < 1 {
                1
            } else if l > max {
                max
            } else {
                l
            },
            None => if default < 1 {
                1
            } else if default > max {
                max
            } else {
                default
            },
        },
{
    let l = match limit {
        Some(l) => l,
        None => default,
    };
    if l < 1 {
        1
    } else if l > max {
        max
    } else {
        l
    }
}

/// How to list the discoverable guilds.
pub struct DiscoveryPlan {
    /// Page size, `1..=100` (50 when absent).
    pub limit: i64,
    /// `LIKE` pattern on the guild name: the trimmed query between `%` signs.
    pub like: String,
}

/// Plans a discovery listing from its query.
pub fn discovery_plan(q: &DiscoveryQuery) -> (p: DiscoveryPlan)
    ensures
        p.limit == (match q.limit {
            Some(l) => if l < 1 { 1 } else if l > 100 { 100 } else { l },
            None => 50,
        }),
        p.like@ == seq!['%'] + trim_spec(match q.q {
            Some(s) => s@,
            None => Seq::<char>::empty(),
        }) + seq!['%'],
{
    let limit = clamp_limit(q.limit, 50, 100);
    let t = match &q.q {
        Some(s) => trim(s.as_str()),
        None => {
            let e = trim("");
            proof {
                reveal_strlit("");
            }
            e
        },
    };
    let a = concat("%", t.as_str());
    let like = concat(a.as_str(), "%");
    proof {
        reveal_strlit("%");
    }
    DiscoveryPlan { limit, like }
}

/// Only a guild that opted into discovery can be joined from it; another one is answered
/// as if it did not exist. `discoverable` is the guild's flag when it exists.
pub fn check_discoverable(discoverable: Option<bool>) -> (r: Result<(), AppError>)
    ensures
        discoverable == Some(true) ==> r is Ok,
        discoverable != Some(true) ==> (r matches Err(e) && is_not_found(e, "guilde introuvable"@)),
{
    match discoverable {
        Some(true) => Ok(()),
        _ => Err(AppError::not_found("guilde introuvable")),
    }
}

} // verus!
