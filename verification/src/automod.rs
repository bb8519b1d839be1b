//! Auto-moderation: per-guild rules (filtered keywords, mention spam). A triggered
//! `block` rule refuses the message; an `alert` rule lets it through and notifies the
//! rule's alert channel. Members exempted by role, and holders of `MANAGE_MESSAGES`,
//! are never filtered.

use vstd::prelude::*;
use vstd::string::StringSliceAdditionalSpecFns;
use crate::mentions::{count_mentions, count_mentions_spec};
use crate::perms::{has_spec, MANAGE_MESSAGES};
use crate::permissions::contains_id;
use crate::error::{AppError, is_bad_request};
use crate::text::{char_count, contains_spec, lowercase, str_contains, str_eq, to_lowercase, trim, trim_spec};
use crate::validate::{valid_action, valid_trigger};
use crate::guild::{json_string_array, string_views, to_json_array};
use crate::numbers::{decimal_string, decimal_text};

verus! {

/// An auto-moderation rule of a guild.
pub struct AutomodRule {
    pub id: i64,
    pub name: String,
    /// `keyword` or `mention_spam`.
    pub trigger_type: String,
    pub keywords: Vec<String>,
    pub mention_limit: i64,
    /// `block` or `alert`.
    pub action: String,
    pub alert_channel_id: Option<i64>,
    pub exempt_roles: Vec<i64>,
}

/// Decision of auto-moderation on an incoming message.
pub enum AutomodVerdict {
    /// The message goes through (no rule triggered, or only `alert` rules).
    Allow,
    /// The message is refused by the `block` rule of that name.
    Block(String),
}

/// Decision with the rules that triggered (to alert and audit), in rule order.
pub struct AutomodOutcome {
    pub verdict: AutomodVerdict,
    /// Indices in the rule list of the rules that triggered, up to the blocking one.
    pub triggered: Vec<usize>,
}

/// The author holds one of the roles that exempt from `rule`.
pub open spec fn exempted(rule: AutomodRule, author_roles: Seq<i64>) -> bool {
    exists|j: int| 0 <= j < rule.exempt_roles@.len() && author_roles.contains(rule.exempt_roles@[j])
}

/// `rule` fires on a message whose lower-cased text is `lower` with `mentions` mentions.
pub open spec fn fires(rule: AutomodRule, lower: Seq<char>, mentions: int) -> bool {
    if rule.trigger_type@ == "keyword"@ {
        exists|j: int|
            0 <= j < rule.keywords@.len() && contains_spec(lower, #[trigger] rule.keywords@[j]@)
    } else if rule.trigger_type@ == "mention_spam"@ {
        mentions >= rule.mention_limit
    } else {
        false
    }
}

/// Rules `0..k` scanned in order: the triggered ones and the blocking one, if reached.
pub open spec fn scan_rules(
    rules: Seq<AutomodRule>,
    author_roles: Seq<i64>,
    lower: Seq<char>,
    mentions: int,
    k: int,
) -> (Seq<int>, Option<int>)
    decreases k,
{
    if k <= 0 {
        (Seq::empty(), None)
    } else {
        let (t, b) = scan_rules(rules, author_roles, lower, mentions, k - 1);
        let r = rules[k - 1];
        if b is Some || exempted(r, author_roles) || !fires(r, lower, mentions) {
            (t, b)
        } else if r.action@ == "block"@ {
            (t.push(k - 1), Some(k - 1))
        } else {
            (t.push(k - 1), None)
        }
    }
}

/// Expected outcome for a message: for a DM or a `MANAGE_MESSAGES` holder nothing is
/// checked; otherwise the scan of all rules.
pub open spec fn automod_spec(
    guild_id: i64,
    author_perms: u64,
    rules: Seq<AutomodRule>,
    author_roles: Seq<i64>,
    content: &str,
) -> (Seq<int>, Option<int>) {
    if guild_id == 0 || has_spec(author_perms, MANAGE_MESSAGES) {
        (Seq::empty(), None)
    } else {
        scan_rules(
            rules,
            author_roles,
            lowercase(content@),
            count_mentions_spec(content.spec_bytes()) as i64 as int,
            rules.len() as int,
        )
    }
}

/// Whether one of `exempt` is in `roles`.
fn any_exempt(exempt: &Vec<i64>, roles: &Vec<i64>) -> (r: bool)
    ensures
        r == exists|j: int| 0 <= j < exempt@.len() && roles@.contains(exempt@[j]),
{
    let mut i: usize = 0;
    while i < exempt.len()
        invariant
            0 <= i <= exempt.len(),
            forall|j: int| 0 <= j < i ==> !roles@.contains(exempt@[j]),
        decreases exempt.len() - i,
    {
        if contains_id(roles, exempt[i]) {
            return true;
        }
        i = i + 1;
    }
    false
}

/// Whether `rule` fires on the lower-cased text `lower` with `mentions` mentions.
fn rule_fires(rule: &AutomodRule, lower: &str, mentions: i64) -> (r: bool)
    ensures
        r == fires(*rule, lower@, mentions as int),
{
    if str_eq(rule.trigger_type.as_str(), "keyword") {
        let mut i: usize = 0;
        while i < rule.keywords.len()
            invariant
                rule.trigger_type@ == "keyword"@,
                0 <= i <= rule.keywords@.len(),
                forall|j: int| 0 <= j < i ==> !contains_spec(lower@, #[trigger] rule.keywords@[j]@),
            decreases rule.keywords.len() - i,
        {
            if str_contains(lower, rule.keywords[i].as_str()) {
                assert(contains_spec(lower@, rule.keywords@[i as int]@));
                return true;
            }
            i = i + 1;
        }
        false
    } else if str_eq(rule.trigger_type.as_str(), "mention_spam") {
        mentions >= rule.mention_limit
    } else {
        false
    }
}

/// Checks a message of `content` posted in guild `guild_id` against the guild's enabled
/// `rules` (see [`automod_spec`]).
pub fn check_message(
    guild_id: i64,
    author_perms: u64,
    rules: &Vec<AutomodRule>,
    author_roles: &Vec<i64>,
    content: &str,
) -> (r: AutomodOutcome)
    ensures
        ({
            let (t, b) = automod_spec(guild_id, author_perms, rules@, author_roles@, content);
            &&& r.triggered@.map_values(|i: usize| i as int) == t
            &&& match b {
                Some(k) => r.verdict matches AutomodVerdict::Block(name) && name@ == rules@[k].name@,
                None => r.verdict is Allow,
            }
        }),
{
    if guild_id == 0 || crate::perms::has(author_perms, MANAGE_MESSAGES) {
        let triggered: Vec<usize> = Vec::new();
        assert(triggered@.map_values(|i: usize| i as int) =~= Seq::<int>::empty());
        return AutomodOutcome { verdict: AutomodVerdict::Allow, triggered };
    }
    let lower = to_lowercase(content);
    let mentions = count_mentions(content);
    let ghost m = count_mentions_spec(content.spec_bytes()) as i64 as int;
    let mut triggered: Vec<usize> = Vec::new();
    let mut i: usize = 0;
    while i < rules.len()
        invariant
            0 <= i <= rules@.len(),
            lower@ == lowercase(content@),
            mentions as int == m,
            m == count_mentions_spec(content.spec_bytes()) as i64 as int,
            !(guild_id == 0 || has_spec(author_perms, MANAGE_MESSAGES)),
            scan_rules(rules@, author_roles@, lower@, m, i as int) == (
                triggered@.map_values(|x: usize| x as int),
                None::<int>,
            ),
        decreases rules.len() - i,
    {
        let rule = &rules[i];
        let ghost before = triggered@;
        if !any_exempt(&rule.exempt_roles, author_roles) && rule_fires(rule, lower.as_str(), mentions) {
            triggered.push(i);
            assert(triggered@.map_values(|x: usize| x as int) =~= before.map_values(
                |x: usize| x as int,
            ).push(i as int));
            if str_eq(rule.action.as_str(), "block") {
                let name = rule.name.clone();
                proof {
                    assert(rules@[i as int] == *rule);
                    assert(scan_rules(rules@, author_roles@, lower@, m, i + 1) == (
                        triggered@.map_values(|x: usize| x as int),
                        Some(i as int),
                    ));
                    lemma_scan_stops(rules@, author_roles@, lower@, m, i as int + 1, rules@.len() as int);
                }
                return AutomodOutcome { verdict: AutomodVerdict::Block(name), triggered };
            }
        }
        i = i + 1;
    }
    AutomodOutcome { verdict: AutomodVerdict::Allow, triggered }
}

/// Once a blocking rule is reached, later rules change nothing.
proof fn lemma_scan_stops(
    rules: Seq<AutomodRule>,
    author_roles: Seq<i64>,
    lower: Seq<char>,
    mentions: int,
    k: int,
    n: int,
)
    requires
        0 < k <= n,
        scan_rules(rules, author_roles, lower, mentions, k).1 is Some,
    ensures
        scan_rules(rules, author_roles, lower, mentions, n) == scan_rules(
            rules,
            author_roles,
            lower,
            mentions,
            k,
        ),
    decreases n - k,
{
    if n > k {
        lemma_scan_stops(rules, author_roles, lower, mentions, k, n - 1);
    }
}

/// A message is refused only by a rule that is enabled for it: a `block` rule that fires
/// and does not exempt the author; DMs and message managers are never refused.
pub proof fn law_block_needs_firing_rule(
    guild_id: i64,
    author_perms: u64,
    rules: Seq<AutomodRule>,
    author_roles: Seq<i64>,
    content: &str,
)
    ensures
        ({
            let (t, b) = automod_spec(guild_id, author_perms, rules, author_roles, content);
            &&& (guild_id == 0 || has_spec(author_perms, MANAGE_MESSAGES)) ==> b is None && t.len() == 0
            &&& b is Some ==> {
                let k = b->0;
                &&& 0 <= k < rules.len()
                &&& rules[k].action@ == "block"@
                &&& !exempted(rules[k], author_roles)
                &&& fires(
                    rules[k],
                    lowercase(content@),
                    count_mentions_spec(content.spec_bytes()) as i64 as int,
                )
            }
        }),
{
    if !(guild_id == 0 || has_spec(author_perms, MANAGE_MESSAGES)) {
        lemma_block_fires(
            rules,
            author_roles,
            lowercase(content@),
            count_mentions_spec(content.spec_bytes()) as i64 as int,
            rules.len() as int,
        );
    }
}

proof fn lemma_block_fires(
    rules: Seq<AutomodRule>,
    author_roles: Seq<i64>,
    lower: Seq<char>,
    mentions: int,
    k: int,
)
    requires
        k <= rules.len(),
    ensures
        ({
            let b = scan_rules(rules, author_roles, lower, mentions, k).1;
            b is Some ==> {
                &&& 0 <= b->0 < k
                &&& rules[b->0].action@ == "block"@
                &&& !exempted(rules[b->0], author_roles)
                &&& fires(rules[b->0], lower, mentions)
            }
        }),
    decreases k,
{
    if k > 0 {
        lemma_block_fires(rules, author_roles, lower, mentions, k - 1);
    }
}

/// A rule that fires and exempts nobody of the author's roles is reported from the scan
/// on, unless an earlier rule blocked; a firing `block` rule makes the scan block.
proof fn lemma_scan_reports(
    rules: Seq<AutomodRule>,
    author_roles: Seq<i64>,
    lower: Seq<char>,
    mentions: int,
    k: int,
    n: int,
)
    requires
        0 <= k < n <= rules.len(),
        !exempted(rules[k], author_roles),
        fires(rules[k], lower, mentions),
    ensures
        ({
            let (t, b) = scan_rules(rules, author_roles, lower, mentions, n);
            &&& t.contains(k) || (b is Some && b->0 < k)
            &&& rules[k].action@ == "block"@ ==> (b is Some && b->0 <= k)
        }),
    decreases n,
{
    let (t0, b0) = scan_rules(rules, author_roles, lower, mentions, n - 1);
    if n == k + 1 {
        lemma_block_fires(rules, author_roles, lower, mentions, k);
        if b0 is None {
            assert(t0.push(k)[t0.len() as int] == k);
        }
    } else {
        lemma_scan_reports(rules, author_roles, lower, mentions, k, n - 1);
        if b0 is None {
            let q = choose|q: int| 0 <= q < t0.len() && t0[q] == k;
            assert(t0.push(n - 1)[q] == k);
        }
    }
}

/// A keyword rule reacts to any one of its keywords. In a guild, for an author without
/// `MANAGE_MESSAGES` who holds no exempting role of rule `k`, when the lower-cased text
/// contains one of the rule's keywords, the rule is reported as triggered unless an
/// earlier rule already blocked the message; and a `block` rule refuses the message, by
/// itself or through an earlier rule.
pub proof fn law_keyword_rule_fires_on_any_keyword(
    guild_id: i64,
    author_perms: u64,
    rules: Seq<AutomodRule>,
    author_roles: Seq<i64>,
    content: &str,
    k: int,
    j: int,
)
    requires
        guild_id != 0,
        !has_spec(author_perms, MANAGE_MESSAGES),
        0 <= k < rules.len(),
        rules[k].trigger_type@ == "keyword"@,
        forall|e: int| 0 <= e < rules[k].exempt_roles@.len() ==> !author_roles.contains(
            #[trigger] rules[k].exempt_roles@[e],
        ),
        0 <= j < rules[k].keywords@.len(),
        contains_spec(lowercase(content@), rules[k].keywords@[j]@),
    ensures
        ({
            let (t, b) = automod_spec(guild_id, author_perms, rules, author_roles, content);
            &&& t.contains(k) || (b is Some && b->0 < k)
            &&& rules[k].action@ == "block"@ ==> (b is Some && b->0 <= k)
        }),
{
    let lower = lowercase(content@);
    let m = count_mentions_spec(content.spec_bytes()) as i64 as int;
    assert(fires(rules[k], lower, m));
    lemma_scan_reports(rules, author_roles, lower, m, k, rules.len() as int);
}

/// A mention-spam rule fires at its limit. In a guild, for an author without
/// `MANAGE_MESSAGES` who holds no exempting role of rule `k`, a message with at least
/// `mention_limit` mentions gets the rule reported unless an earlier rule already
/// blocked it; a `block` rule then refuses the message, by itself or an earlier rule.
pub proof fn law_mention_spam_fires_at_limit(
    guild_id: i64,
    author_perms: u64,
    rules: Seq<AutomodRule>,
    author_roles: Seq<i64>,
    content: &str,
    k: int,
)
    requires
        guild_id != 0,
        !has_spec(author_perms, MANAGE_MESSAGES),
        0 <= k < rules.len(),
        rules[k].trigger_type@ == "mention_spam"@,
        forall|e: int| 0 <= e < rules[k].exempt_roles@.len() ==> !author_roles.contains(
            #[trigger] rules[k].exempt_roles@[e],
        ),
        count_mentions_spec(content.spec_bytes()) as i64 >= rules[k].mention_limit,
    ensures
        ({
            let (t, b) = automod_spec(guild_id, author_perms, rules, author_roles, content);
            &&& t.contains(k) || (b is Some && b->0 < k)
            &&& rules[k].action@ == "block"@ ==> (b is Some && b->0 <= k)
        }),
{
    let lower = lowercase(content@);
    let m = count_mentions_spec(content.spec_bytes()) as i64 as int;
    assert(rules[k].trigger_type@ != "keyword"@) by {
        reveal_strlit("keyword");
        reveal_strlit("mention_spam");
        assert(rules[k].trigger_type@.len() != 7);
    }
    assert(fires(rules[k], lower, m));
    lemma_scan_reports(rules, author_roles, lower, m, k, rules.len() as int);
}

/// Every rule reported by the scan of `0..n` fires and exempts none of the author's roles.
proof fn lemma_reported_rules_fire(
    rules: Seq<AutomodRule>,
    author_roles: Seq<i64>,
    lower: Seq<char>,
    mentions: int,
    n: int,
    q: int,
)
    requires
        n <= rules.len(),
        0 <= q < scan_rules(rules, author_roles, lower, mentions, n).0.len(),
    ensures
        ({
            let k = scan_rules(rules, author_roles, lower, mentions, n).0[q];
            &&& 0 <= k < n
            &&& !exempted(rules[k], author_roles)
            &&& fires(rules[k], lower, mentions)
        }),
    decreases n,
{
    if n > 0 {
        let t0 = scan_rules(rules, author_roles, lower, mentions, n - 1).0;
        if q < t0.len() {
            lemma_reported_rules_fire(rules, author_roles, lower, mentions, n - 1, q);
            assert(t0.push(n - 1)[q] == t0[q]);
        }
    }
}

/// Only genuine triggers are reported: a rule listed as triggered is a keyword rule one of
/// whose keywords occurs in the lower-cased text, or a mention-spam rule whose limit the
/// message reaches; and a rule that exempts one of the author's roles is never listed.
pub proof fn law_reported_rules_really_trigger(
    guild_id: i64,
    author_perms: u64,
    rules: Seq<AutomodRule>,
    author_roles: Seq<i64>,
    content: &str,
    q: int,
)
    requires
        0 <= q < automod_spec(guild_id, author_perms, rules, author_roles, content).0.len(),
    ensures
        ({
            let k = automod_spec(guild_id, author_perms, rules, author_roles, content).0[q];
            let r = rules[k];
            &&& 0 <= k < rules.len()
            &&& forall|e: int| 0 <= e < r.exempt_roles@.len() ==> !author_roles.contains(
                #[trigger] r.exempt_roles@[e],
            )
            &&& (r.trigger_type@ == "keyword"@ && exists|j: int|
                0 <= j < r.keywords@.len() && contains_spec(
                    lowercase(content@),
                    #[trigger] r.keywords@[j]@,
                )) || (r.trigger_type@ == "mention_spam"@ && count_mentions_spec(content.spec_bytes()) as i64
                >= r.mention_limit)
        }),
{
    let lower = lowercase(content@);
    let m = count_mentions_spec(content.spec_bytes()) as i64 as int;
    lemma_reported_rules_fire(rules, author_roles, lower, m, rules.len() as int, q);
}

proof fn lemma_scan_order(
    rules: Seq<AutomodRule>,
    author_roles: Seq<i64>,
    lower: Seq<char>,
    mentions: int,
    n: int,
)
    requires
        n <= rules.len(),
    ensures
        ({
            let (t, b) = scan_rules(rules, author_roles, lower, mentions, n);
            &&& forall|p: int, q: int| 0 <= p < q < t.len() ==> #[trigger] t[p] < #[trigger] t[q]
            &&& forall|p: int| 0 <= p < t.len() ==> 0 <= #[trigger] t[p] < n
            &&& b is Some ==> t.len() > 0 && t.last() == b->0
        }),
    decreases n,
{
    if n > 0 {
        lemma_scan_order(rules, author_roles, lower, mentions, n - 1);
        let (t0, b0) = scan_rules(rules, author_roles, lower, mentions, n - 1);
        let t1 = t0.push(n - 1);
        assert forall|p: int, q: int| 0 <= p < q < t1.len() implies #[trigger] t1[p] < #[trigger] t1[q] by {
            assert(t1[p] == t0[p]);
            if q < t0.len() {
                assert(t1[q] == t0[q]);
            }
        }
        assert forall|p: int| 0 <= p < t1.len() implies 0 <= #[trigger] t1[p] < n by {
            if p < t0.len() {
                assert(t1[p] == t0[p]);
            }
        }
    }
}

/// Triggered rules are listed in rule order, each once, and a blocking rule ends the list:
/// no rule after it is reported.
pub proof fn law_triggered_in_order_up_to_block(
    guild_id: i64,
    author_perms: u64,
    rules: Seq<AutomodRule>,
    author_roles: Seq<i64>,
    content: &str,
)
    ensures
        ({
            let (t, b) = automod_spec(guild_id, author_perms, rules, author_roles, content);
            &&& forall|p: int, q: int| 0 <= p < q < t.len() ==> #[trigger] t[p] < #[trigger] t[q]
            &&& b is Some ==> t.len() > 0 && t.last() == b->0 && forall|p: int|
                0 <= p < t.len() ==> #[trigger] t[p] <= b->0
        }),
{
    if !(guild_id == 0 || has_spec(author_perms, MANAGE_MESSAGES)) {
        lemma_scan_order(
            rules,
            author_roles,
            lowercase(content@),
            count_mentions_spec(content.spec_bytes()) as i64 as int,
            rules.len() as int,
        );
        let (t, b) = automod_spec(guild_id, author_perms, rules, author_roles, content);
        if b is Some {
            assert forall|p: int| 0 <= p < t.len() implies #[trigger] t[p] <= b->0 by {
                if p < t.len() - 1 {
                    assert(t[p] < t[t.len() - 1]);
                }
            }
        }
    }
}

/// Most keywords of a rule.
pub const MAX_KEYWORDS: usize = 100;
/// Longest keyword, in characters.
pub const MAX_KEYWORD_CHARS: usize = 60;

/// The keywords of a rule: each trimmed and in lower case, the empty ones and those over
/// 60 characters dropped, at most the first 100 kept.
pub open spec fn clean_keywords_spec(list: Seq<String>) -> Seq<Seq<char>> {
    let k = list.map_values(|s: String| lowercase(trim_spec(s@))).filter(|k: Seq<char>| 0 < k.len() <= 60);
    if k.len() <= 100 { k } else { k.take(100) }
}

/// Cleans the keywords of a rule (see [`clean_keywords_spec`]).
pub fn clean_keywords(list: &Vec<String>) -> (r: Vec<String>)
    ensures
        r@.map_values(|s: String| s@) == clean_keywords_spec(list@),
{
    let ghost mapped = list@.map_values(|s: String| lowercase(trim_spec(s@)));
    let ghost pred = |k: Seq<char>| 0 < k.len() <= 60;
    let mut out: Vec<String> = Vec::new();
    let mut i: usize = 0;
    while i < list.len()
        invariant
            0 <= i <= list@.len(),
            mapped == list@.map_values(|s: String| lowercase(trim_spec(s@))),
            pred == (|k: Seq<char>| 0 < k.len() <= 60),
            out@.len() <= 100,
            ({
                let f = mapped.take(i as int).filter(pred);
                out@.map_values(|s: String| s@) == (if f.len() <= 100 { f } else { f.take(100) })
            }),
        decreases list.len() - i,
    {
        let t = trim(list[i].as_str());
        let k = to_lowercase(t.as_str());
        let n = char_count(k.as_str());
        let ghost f = mapped.take(i as int).filter(pred);
        proof {
            reveal(Seq::filter);
            assert(mapped.take(i + 1).drop_last() =~= mapped.take(i as int));
            assert(mapped.take(i + 1).last() == k@);
        }
        if 0 < n && n <= MAX_KEYWORD_CHARS {
            if out.len() < MAX_KEYWORDS {
                let ghost before = out@;
                proof {
                    assert(before.map_values(|s: String| s@).len() == before.len());
                    assert(f.len() <= 100);
                }
                out.push(k);
                assert(out@.map_values(|s: String| s@) =~= before.map_values(|s: String| s@).push(
                    out@[out@.len() - 1]@,
                ));
            } else {
                assert(f.push(k@).take(100) =~= (if f.len() <= 100 { f } else { f.take(100) }));
            }
        } else {
            assert(f =~= mapped.take(i + 1).filter(pred));
        }
        i = i + 1;
    }
    assert(mapped.take(list@.len() as int) =~= mapped);
    out
}

/// Mention limit of a rule, clamped to `1..=50`.
pub fn clamp_mention_limit(l: i64) -> (r: i64)
    ensures
        r == (if l < 1 { 1 } else if l > 50 { 50 } else { l }),
{
    if l < 1 {
        1
    } else if l > 50 {
        50
    } else {
        l
    }
}

/// Checks a rule name (trimmed, 1 to 60 characters); answers it trimmed.
pub fn check_rule_name(name: &str) -> (r: Result<String, AppError>)
    ensures
        1 <= trim_spec(name@).len() <= 60 ==> (r matches Ok(t) && t@ == trim_spec(name@)),
        !(1 <= trim_spec(name@).len() <= 60) ==> (r matches Err(e) && is_bad_request(
            e,
            "nom de règle invalide (1 à 60)"@,
        )),
{
    let t = trim(name);
    let n = char_count(t.as_str());
    if n == 0 || n > 60 {
        return Err(AppError::bad_request("nom de règle invalide (1 à 60)"));
    }
    Ok(t)
}

/// Checks a new rule: its name, a known trigger and a known action, in that order;
/// answers the trimmed name.
pub fn check_new_rule(name: &str, trigger_type: &str, action: &str) -> (r: Result<String, AppError>)
    ensures
        !(1 <= trim_spec(name@).len() <= 60) ==> (r matches Err(e) && is_bad_request(
            e,
            "nom de règle invalide (1 à 60)"@,
        )),
        1 <= trim_spec(name@).len() <= 60 && !(trigger_type@ == "keyword"@ || trigger_type@ == "mention_spam"@)
            ==> (r matches Err(e) && is_bad_request(e, "déclencheur invalide (keyword | mention_spam)"@)),
        1 <= trim_spec(name@).len() <= 60 && (trigger_type@ == "keyword"@ || trigger_type@ == "mention_spam"@)
            && !(action@ == "block"@ || action@ == "alert"@) ==> (r matches Err(e) && is_bad_request(
            e,
            "action invalide (block | alert)"@,
        )),
        1 <= trim_spec(name@).len() <= 60 && (trigger_type@ == "keyword"@ || trigger_type@ == "mention_spam"@)
            && (action@ == "block"@ || action@ == "alert"@) ==> (r matches Ok(t) && t@ == trim_spec(name@)),
{
    let t = match check_rule_name(name) {
        Ok(t) => t,
        Err(e) => return Err(e),
    };
    if !valid_trigger(trigger_type) {
        return Err(AppError::bad_request("déclencheur invalide (keyword | mention_spam)"));
    }
    if !valid_action(action) {
        return Err(AppError::bad_request("action invalide (block | alert)"));
    }
    Ok(t)
}

/// A rule action, when sent in an update, must be known.
pub fn check_rule_action(action: Option<&str>) -> (r: Result<(), AppError>)
    ensures
        (action matches Some(a) && !(a@ == "block"@ || a@ == "alert"@)) ==> (r matches Err(e) && is_bad_request(
            e,
            "action invalide (block | alert)"@,
        )),
        !(action matches Some(a) && !(a@ == "block"@ || a@ == "alert"@)) ==> r is Ok,
{
    match action {
        Some(a) => if !valid_action(a) {
            return Err(AppError::bad_request("action invalide (block | alert)"));
        },
        None => {},
    }
    Ok(())
}

/// The stored form of the keywords of a rule: the JSON array of the cleaned keywords.
pub fn stored_keywords(list: &Vec<String>) -> (r: String)
    ensures
        r@ == json_string_array(clean_keywords_spec(list@)),
{
    let kept = clean_keywords(list);
    proof {
        assert(string_views(kept@) =~= kept@.map_values(|s: String| s@));
    }
    to_json_array(&kept)
}

/// Decimal text of a role id read as the unsigned 64-bit value it stands for.
pub open spec fn role_id_text(id: i64) -> Seq<char> {
    decimal_text((id as u64) as nat)
}

/// The stored form of the exempt roles of a rule: the JSON array of their ids, each in
/// decimal.
pub fn stored_exempt_roles(ids: &Vec<i64>) -> (r: String)
    ensures
        r@ == json_string_array(ids@.map_values(|id: i64| role_id_text(id))),
{
    let mut texts: Vec<String> = Vec::new();
    let mut i: usize = 0;
    while i < ids.len()
        invariant
            0 <= i <= ids@.len(),
            string_views(texts@) == ids@.take(i as int).map_values(|id: i64| role_id_text(id)),
        decreases ids.len() - i,
    {
        let t = decimal_string(ids[i] as u64);
        let ghost before = texts@;
        texts.push(t);
        proof {
            assert(string_views(texts@) =~= string_views(before).push(t@));
            assert(ids@.take(i + 1) =~= ids@.take(i as int).push(ids@[i as int]));
            assert(ids@.take(i + 1).map_values(|id: i64| role_id_text(id)) =~= ids@.take(i as int).map_values(
                |id: i64| role_id_text(id),
            ).push(role_id_text(ids@[i as int])));
        }
        i = i + 1;
    }
    assert(ids@.take(ids@.len() as int) =~= ids@);
    to_json_array(&texts)
}

} // verus!
