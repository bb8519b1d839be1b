//! Guild settings: the values a guild update accepts, and the channel rules (types,
//! names, slowmode, voice parameters, thread flags).

use vstd::prelude::*;
use crate::error::{AppError, is_bad_request};
use crate::text::{char_count, chars_of, lowercase, to_lowercase, trim, trim_spec};
use crate::validate::{all_chars_in, chars_all_in, validate_topic};
use crate::auth::utf8_len;
use crate::crypto::{hex_digit, is_random_token};
use crate::invites::{code_of, random_code};

verus! {

/// Largest number of games shown on a guild profile.
pub const MAX_GAMES: usize = 12;

/// A text that is blank counts as absent.
pub fn blank_to_none(s: String) -> (r: Option<String>)
    ensures
        trim_spec(s@).len() == 0 ==> r is None,
        trim_spec(s@).len() != 0 ==> r is Some && r->0@ == s@,
{
    let t = trim(s.as_str());
    if char_count(t.as_str()) == 0 {
        None
    } else {
        Some(s)
    }
}

/// A guild description: blank removes it; otherwise at most 300 characters (kept as given).
pub fn validate_description(s: String) -> (r: Result<Option<String>, AppError>)
    ensures
        trim_spec(s@).len() == 0 ==> r is Ok && r->Ok_0 is None,
        trim_spec(s@).len() != 0 && s@.len() > 300 ==> r is Err && is_bad_request(
            r->Err_0,
            "description trop longue (max 300)"@,
        ),
        trim_spec(s@).len() != 0 && s@.len() <= 300 ==> r is Ok && r->Ok_0 is Some
            && r->Ok_0->0@ == s@,
{
    let t = trim(s.as_str());
    if char_count(t.as_str()) == 0 {
        return Ok(None);
    }
    if char_count(s.as_str()) > 300 {
        return Err(AppError::bad_request("description trop longue (max 300)"));
    }
    Ok(Some(s))
}

/// A game key kept on a guild profile: 1 to 40 characters, ASCII letters, digits, `-`, `_`.
pub open spec fn game_key_ok(k: Seq<char>) -> bool {
    k.len() > 0 && k.len() <= 40 && all_chars_in(k, seq!['-', '_'])
}

/// The kept game keys of `list`, at most [`MAX_GAMES`] of them, in order.
pub open spec fn clean_games_spec(list: Seq<Seq<char>>) -> Seq<Seq<char>>
    decreases list.len(),
{
    if list.len() == 0 {
        Seq::empty()
    } else {
        let rest = clean_games_spec(list.drop_last());
        if game_key_ok(list.last()) && rest.len() < MAX_GAMES {
            rest.push(list.last())
        } else {
            rest
        }
    }
}

/// Views of a sequence of strings.
pub open spec fn string_views(v: Seq<String>) -> Seq<Seq<char>> {
    v.map_values(|s: String| s@)
}

/// Filters the game keys of a guild profile (see [`clean_games_spec`]).
pub fn clean_games(list: Vec<String>) -> (r: Vec<String>)
    ensures
        string_views(r@) == clean_games_spec(string_views(list@)),
{
    let extra = vec!['-', '_'];
    assert(extra@ =~= seq!['-', '_']);
    let mut out: Vec<String> = Vec::new();
    let mut i: usize = 0;
    while i < list.len()
        invariant
            0 <= i <= list@.len(),
            extra@ == seq!['-', '_'],
            string_views(out@) == clean_games_spec(string_views(list@.take(i as int))),
            out@.len() <= MAX_GAMES,
        decreases list.len() - i,
    {
        let k = &list[i];
        assert(string_views(list@.take(i + 1)).drop_last() =~= string_views(list@.take(i as int)));
        assert(string_views(list@.take(i + 1)).last() == list@[i as int]@);
        let v = chars_of(k.as_str());
        if v.len() > 0 && v.len() <= 40 && chars_all_in(&v, &extra) && out.len() < MAX_GAMES {
            let ghost before = out@;
            out.push(k.clone());
            assert(string_views(out@) =~= string_views(before).push(list@[i as int]@));
        }
        i = i + 1;
    }
    assert(list@.take(list@.len() as int) == list@);
    out
}

/// One character inside a JSON string: `"` and `\` behind a backslash, the control
/// characters below U+0020 as their short escape (`\b`, `\t`, `\n`, `\f`, `\r`) or as
/// `\u00` and two lower-case hexadecimal digits, every other character unchanged.
pub open spec fn json_char(c: char) -> Seq<char> {
    let n = c as int;
    if c == '"' {
        seq!['\\', '"']
    } else if c == '\\' {
        seq!['\\', '\\']
    } else if n == 0x08 {
        seq!['\\', 'b']
    } else if n == 0x09 {
        seq!['\\', 't']
    } else if n == 0x0a {
        seq!['\\', 'n']
    } else if n == 0x0c {
        seq!['\\', 'f']
    } else if n == 0x0d {
        seq!['\\', 'r']
    } else if n < 0x20 {
        seq!['\\', 'u', '0', '0', hex_digit(n / 16), hex_digit(n % 16)]
    } else {
        seq![c]
    }
}

/// The escaped characters of `s`, one after the other.
pub open spec fn json_chars(s: Seq<char>) -> Seq<char>
    decreases s.len(),
{
    if s.len() == 0 {
        Seq::empty()
    } else {
        json_chars(s.drop_last()) + json_char(s.last())
    }
}

/// A JSON string: the escaped characters between double quotes.
pub open spec fn json_string(s: Seq<char>) -> Seq<char> {
    seq!['"'] + json_chars(s) + seq!['"']
}

/// The JSON strings of `items`, separated by commas.
pub open spec fn json_items(items: Seq<Seq<char>>) -> Seq<char>
    decreases items.len(),
{
    if items.len() == 0 {
        Seq::empty()
    } else if items.len() == 1 {
        json_string(items[0])
    } else {
        json_items(items.drop_last()) + seq![','] + json_string(items.last())
    }
}

/// The compact JSON text of an array of strings: `[`, the items, `]`.
pub open spec fn json_string_array(items: Seq<Seq<char>>) -> Seq<char> {
    seq!['['] + json_items(items) + seq![']']
}

/// The JSON array of `items`: `serde_json::to_string` on a `Vec<String>` writes the
/// compact form with its escape table, which [`json_string_array`] states. Writing into
/// its in-memory buffer cannot fail; the error arm, which gives `[]`, is never taken.
#[verifier::external_body]
pub(crate) fn to_json_array(items: &Vec<String>) -> (r: String)
    ensures
        r@ == json_string_array(string_views(items@)),
{
    serde_json::to_string(items).unwrap_or_else(|_| "[]".to_owned())
}

/// The stored form of the games of a guild profile: the JSON array of the kept keys
/// (see [`clean_games_spec`]).
pub fn stored_games(list: Vec<String>) -> (r: String)
    ensures
        r@ == json_string_array(clean_games_spec(string_views(list@))),
{
    let kept = clean_games(list);
    to_json_array(&kept)
}

/// Outcome of [`validate_vanity`]: blank removes the vanity code; otherwise the trimmed
/// lower-cased code of 2 to 32 bytes of `a-z`, `0-9`, `-` (and ASCII letters).
pub open spec fn vanity_outcome(c: Seq<char>, r: Result<Option<String>, AppError>) -> bool {
    let code = lowercase(trim_spec(c));
    if trim_spec(c).len() == 0 {
        r is Ok && r->Ok_0 is None
    } else if utf8_len(code) < 2 || utf8_len(code) > 32 || !all_chars_in(code, seq!['-']) {
        r is Err && is_bad_request(r->Err_0, "code vanity invalide (2 à 32 caractères : a-z, 0-9, -)"@)
    } else {
        r is Ok && r->Ok_0 is Some && r->Ok_0->0@ == code
    }
}

/// Validates a vanity invite code (its uniqueness is checked against the other guilds).
pub fn validate_vanity(c: &str) -> (r: Result<Option<String>, AppError>)
    ensures
        vanity_outcome(c@, r),
{
    let t = trim(c);
    if char_count(t.as_str()) == 0 {
        return Ok(None);
    }
    let code = to_lowercase(t.as_str());
    let len = crate::text::byte_len(code.as_str());
    let v = chars_of(code.as_str());
    let extra = vec!['-'];
    assert(extra@ =~= seq!['-']);
    if len < 2 || len > 32 || !chars_all_in(&v, &extra) {
        return Err(AppError::bad_request("code vanity invalide (2 à 32 caractères : a-z, 0-9, -)"));
    }
    Ok(Some(code))
}

/// Default notification level of a guild: `0` (all) or `1` (mentions).
pub fn check_default_notifications(n: u8) -> (r: Result<i64, AppError>)
    ensures
        n <= 1 ==> r == Ok::<i64, AppError>(n as i64),
        n > 1 ==> r is Err && is_bad_request(r->Err_0, "niveau par défaut invalide (0 ou 1)"@),
{
    if n <= 1 {
        Ok(n as i64)
    } else {
        Err(AppError::bad_request("niveau par défaut invalide (0 ou 1)"))
    }
}

/// `x` clamped to `[lo, hi]`.
pub open spec fn clamp_spec(x: int, lo: int, hi: int) -> int {
    if x < lo {
        lo
    } else if x > hi {
        hi
    } else {
        x
    }
}

/// AFK timeout of a guild, clamped to one minute .. one hour (in seconds).
pub fn clamp_afk_timeout(t: i64) -> (r: i64)
    ensures
        r == clamp_spec(t as int, 60, 3600),
{
    if t < 60 {
        60
    } else if t > 3600 {
        3600
    } else {
        t
    }
}

/// A channel reference where `0` means "none".
pub fn channel_ref(id: i64) -> (r: Option<i64>)
    ensures
        r == (if id == 0 {
            None
        } else {
            Some(id)
        }),
{
    if id == 0 {
        None
    } else {
        Some(id)
    }
}

// ───────────────────────────── Channels ─────────────────────────────

/// Longest slowmode, in seconds (6 h).
pub const MAX_SLOWMODE: i32 = 21_600;
pub const MIN_BITRATE: i32 = 8_000;
pub const MAX_BITRATE: i32 = 512_000;
pub const MAX_USER_LIMIT: i32 = 99;
/// Channel type of a category.
pub const KIND_CATEGORY: u8 = 4;

/// Channel types that can be created: text, voice, category, announcement, stage,
/// forum, media.
pub open spec fn allowed_kind(kind: u8) -> bool {
    kind == 0 || kind == 2 || kind == 4 || kind == 5 || kind == 13 || kind == 15 || kind == 16
}

/// Thread inactivity durations allowed before auto-archive, in minutes.
pub open spec fn auto_archive_ok(v: i32) -> bool {
    v == 60 || v == 1440 || v == 4320 || v == 10080
}

/// Outcome of [`validate_channel_name`]: trimmed, 1 to 100 characters.
pub fn validate_channel_name(name: &str) -> (r: Result<String, AppError>)
    ensures
        ({
            let t = trim_spec(name@);
            if t.len() == 0 || t.len() > 100 {
                r is Err && is_bad_request(r->Err_0, "nom de salon invalide"@)
            } else {
                r is Ok && r->Ok_0@ == t
            }
        }),
{
    let t = trim(name);
    let n = char_count(t.as_str());
    if n == 0 || n > 100 {
        return Err(AppError::bad_request("nom de salon invalide"));
    }
    Ok(t)
}

/// Slowmode clamped to `0..=MAX_SLOWMODE`.
pub fn clamp_slowmode(rate: i32) -> (r: i32)
    ensures
        r == clamp_spec(rate as int, 0, MAX_SLOWMODE as int),
{
    if rate < 0 {
        0
    } else if rate > MAX_SLOWMODE {
        MAX_SLOWMODE
    } else {
        rate
    }
}

/// A new channel as accepted: trimmed name and clamped slowmode.
pub struct NewChannel {
    pub name: String,
    pub rate_limit_per_user: i32,
}

/// Checks a channel creation request: name, supported type, topic, no parent for a
/// category; the slowmode is clamped. (That a given parent is a category of the guild is
/// checked against the database.)
pub fn check_new_channel(
    name: &str,
    kind: u8,
    topic: &Option<String>,
    has_parent: bool,
    rate_limit_per_user: Option<i32>,
) -> (r: Result<NewChannel, AppError>)
    ensures
        ({
            let t = trim_spec(name@);
            if t.len() == 0 || t.len() > 100 {
                r is Err && is_bad_request(r->Err_0, "nom de salon invalide"@)
            } else if !allowed_kind(kind) {
                r is Err && is_bad_request(r->Err_0, "type de salon non supporté"@)
            } else if topic is Some && topic->0@.len() > 1024 {
                r is Err && is_bad_request(r->Err_0, "sujet trop long (max 1024)"@)
            } else if has_parent && kind == KIND_CATEGORY {
                r is Err && is_bad_request(r->Err_0, "une catégorie ne peut pas avoir de parent"@)
            } else {
                r is Ok && r->Ok_0.name@ == t && r->Ok_0.rate_limit_per_user == clamp_spec(
                    match rate_limit_per_user {
                        Some(x) => x as int,
                        None => 0,
                    },
                    0,
                    MAX_SLOWMODE as int,
                )
            }
        }),
{
    let name = match validate_channel_name(name) {
        Ok(n) => n,
        Err(e) => return Err(e),
    };
    if !(kind == 0 || kind == 2 || kind == 4 || kind == 5 || kind == 13 || kind == 15 || kind == 16) {
        return Err(AppError::bad_request("type de salon non supporté"));
    }
    match validate_topic(topic) {
        Err(e) => return Err(e),
        Ok(()) => {},
    }
    if has_parent && kind == KIND_CATEGORY {
        return Err(AppError::bad_request("une catégorie ne peut pas avoir de parent"));
    }
    let rate = clamp_slowmode(
        match rate_limit_per_user {
            Some(x) => x,
            None => 0,
        },
    );
    Ok(NewChannel { name, rate_limit_per_user: rate })
}

/// Settings of a channel.
pub struct ChannelSettings {
    pub kind: u8,
    pub name: String,
    pub topic: Option<String>,
    pub nsfw: bool,
    pub rate_limit_per_user: i32,
    pub position: i32,
    pub parent_id: Option<i64>,
    pub bitrate: i32,
    pub user_limit: i32,
    pub rtc_region: Option<String>,
    pub video_quality_mode: u8,
    pub default_auto_archive: i32,
    pub archived: bool,
    pub locked: bool,
}

/// A channel update request (absent fields are kept).
pub struct ChannelUpdate {
    pub name: Option<String>,
    pub topic: Option<String>,
    pub nsfw: Option<bool>,
    pub rate_limit_per_user: Option<i32>,
    pub position: Option<i32>,
    pub parent_id: Option<i64>,
    pub bitrate: Option<i32>,
    pub user_limit: Option<i32>,
    pub rtc_region: Option<String>,
    pub video_quality_mode: Option<u8>,
    pub default_auto_archive: Option<i32>,
    pub archived: Option<bool>,
    pub locked: Option<bool>,
}

/// A voice region: 1 to 32 ASCII letters, digits, `-` or `_` (blank: automatic).
pub open spec fn region_outcome(s: Seq<char>, r: Result<Option<String>, AppError>) -> bool {
    let t = trim_spec(s);
    if t.len() == 0 {
        r is Ok && r->Ok_0 is None
    } else if t.len() > 32 || !all_chars_in(t, seq!['-', '_']) {
        r is Err && is_bad_request(r->Err_0, "région invalide"@)
    } else {
        r is Ok && r->Ok_0 is Some && r->Ok_0->0@ == t
    }
}

/// Validates a voice region.
pub fn validate_region(s: &str) -> (r: Result<Option<String>, AppError>)
    ensures
        region_outcome(s@, r),
{
    let t = trim(s);
    let v = chars_of(t.as_str());
    if v.len() == 0 {
        return Ok(None);
    }
    let extra = vec!['-', '_'];
    assert(extra@ =~= seq!['-', '_']);
    if v.len() > 32 || !chars_all_in(&v, &extra) {
        return Err(AppError::bad_request("région invalide"));
    }
    Ok(Some(t))
}

/// First stage of a channel update, up to the parent: the new name, topic, NSFW flag,
/// slowmode and position. Refuses a parent for a category.
pub fn update_channel_head(cur: &ChannelSettings, req: &ChannelUpdate) -> (r: Result<
    (String, Option<String>, bool, i32, i32),
    AppError,
>)
    ensures
        ({
            let name_t = match req.name {
                Some(n) => trim_spec(n@),
                None => cur.name@,
            };
            if req.name is Some && (name_t.len() == 0 || name_t.len() > 100) {
                r is Err && is_bad_request(r->Err_0, "nom de salon invalide"@)
            } else if req.topic is Some && req.topic->0@.len() > 1024 {
                r is Err && is_bad_request(r->Err_0, "sujet trop long (max 1024)"@)
            } else if req.parent_id is Some && cur.kind == KIND_CATEGORY {
                r is Err && is_bad_request(r->Err_0, "une catégorie ne peut pas avoir de parent"@)
            } else {
                r is Ok && {
                    let (name, topic, nsfw, rate, position) = r->Ok_0;
                    &&& name@ == name_t
                    &&& crate::validate::opt_string_view(topic) == crate::validate::opt_string_view(
                        if req.topic is Some {
                            req.topic
                        } else {
                            cur.topic
                        },
                    )
                    &&& nsfw == match req.nsfw {
                        Some(b) => b,
                        None => cur.nsfw,
                    }
                    &&& rate == clamp_spec(
                        match req.rate_limit_per_user {
                            Some(x) => x as int,
                            None => cur.rate_limit_per_user as int,
                        },
                        0,
                        MAX_SLOWMODE as int,
                    )
                    &&& position == match req.position {
                        Some(p) => p,
                        None => cur.position,
                    }
                }
            }
        }),
{
    let name = match &req.name {
        Some(n) => match validate_channel_name(n.as_str()) {
            Ok(t) => t,
            Err(e) => return Err(e),
        },
        None => cur.name.clone(),
    };
    if req.topic.is_some() {
        match validate_topic(&req.topic) {
            Err(e) => return Err(e),
            Ok(()) => {},
        }
    }
    let topic = match &req.topic {
        Some(t) => Some(t.clone()),
        None => match &cur.topic {
            Some(t) => Some(t.clone()),
            None => None,
        },
    };
    let nsfw = match req.nsfw {
        Some(b) => b,
        None => cur.nsfw,
    };
    let rate = clamp_slowmode(
        match req.rate_limit_per_user {
            Some(x) => x,
            None => cur.rate_limit_per_user,
        },
    );
    let position = match req.position {
        Some(p) => p,
        None => cur.position,
    };
    if req.parent_id.is_some() && cur.kind == KIND_CATEGORY {
        return Err(AppError::bad_request("une catégorie ne peut pas avoir de parent"));
    }
    Ok((name, topic, nsfw, rate, position))
}

/// Second stage of a channel update, after the parent: voice parameters (clamped),
/// region, video quality (1 or 2), auto-archive duration, and the archive / lock flags
/// (threads only).
pub fn update_channel_tail(cur: &ChannelSettings, req: &ChannelUpdate) -> (r: Result<
    (i32, i32, Option<String>, u8, i32, bool, bool),
    AppError,
>)
    ensures
        ({
            let is_thread = cur.kind == 11 || cur.kind == 12;
            let region_bad = req.rtc_region is Some && {
                let t = trim_spec(req.rtc_region->0@);
                t.len() != 0 && (t.len() > 32 || !all_chars_in(t, seq!['-', '_']))
            };
            if region_bad {
                r is Err && is_bad_request(r->Err_0, "région invalide"@)
            } else if req.video_quality_mode is Some && !(req.video_quality_mode->0 == 1
                || req.video_quality_mode->0 == 2) {
                r is Err && is_bad_request(r->Err_0, "qualité vidéo invalide"@)
            } else if req.default_auto_archive is Some && !auto_archive_ok(
                req.default_auto_archive->0,
            ) {
                r is Err && is_bad_request(r->Err_0, "durée de masquage invalide"@)
            } else if req.archived is Some && !is_thread {
                r is Err && is_bad_request(r->Err_0, "seuls les fils peuvent être archivés"@)
            } else if req.locked is Some && !is_thread {
                r is Err && is_bad_request(r->Err_0, "seuls les fils peuvent être verrouillés"@)
            } else {
                r is Ok && {
                    let (bitrate, user_limit, region, vq, auto, archived, locked) = r->Ok_0;
                    &&& bitrate == match req.bitrate {
                        Some(b) => clamp_spec(b as int, MIN_BITRATE as int, MAX_BITRATE as int),
                        None => cur.bitrate as int,
                    }
                    &&& user_limit == match req.user_limit {
                        Some(u) => clamp_spec(u as int, 0, MAX_USER_LIMIT as int),
                        None => cur.user_limit as int,
                    }
                    &&& crate::validate::opt_string_view(region) == match req.rtc_region {
                        Some(s) => if trim_spec(s@).len() == 0 {
                            None
                        } else {
                            Some(trim_spec(s@))
                        },
                        None => crate::validate::opt_string_view(cur.rtc_region),
                    }
                    &&& vq == match req.video_quality_mode {
                        Some(v) => v,
                        None => cur.video_quality_mode,
                    }
                    &&& auto == match req.default_auto_archive {
                        Some(v) => v,
                        None => cur.default_auto_archive,
                    }
                    &&& archived == match req.archived {
                        Some(a) => a,
                        None => cur.archived,
                    }
                    &&& locked == match req.locked {
                        Some(l) => l,
                        None => cur.locked,
                    }
                }
            }
        }),
{
    let bitrate = match req.bitrate {
        Some(b) => if b < MIN_BITRATE {
            MIN_BITRATE
        } else if b > MAX_BITRATE {
            MAX_BITRATE
        } else {
            b
        },
        None => cur.bitrate,
    };
    let user_limit = match req.user_limit {
        Some(u) => if u < 0 {
            0
        } else if u > MAX_USER_LIMIT {
            MAX_USER_LIMIT
        } else {
            u
        },
        None => cur.user_limit,
    };
    let region = match &req.rtc_region {
        Some(s) => match validate_region(s.as_str()) {
            Ok(r) => r,
            Err(e) => return Err(e),
        },
        None => match &cur.rtc_region {
            Some(s) => Some(s.clone()),
            None => None,
        },
    };
    let vq = match req.video_quality_mode {
        Some(v) => if v == 1 || v == 2 {
            v
        } else {
            return Err(AppError::bad_request("qualité vidéo invalide"));
        },
        None => cur.video_quality_mode,
    };
    let auto = match req.default_auto_archive {
        Some(v) => if v == 60 || v == 1440 || v == 4320 || v == 10080 {
            v
        } else {
            return Err(AppError::bad_request("durée de masquage invalide"));
        },
        None => cur.default_auto_archive,
    };
    let is_thread = cur.kind == 11 || cur.kind == 12;
    let archived = match req.archived {
        Some(a) => if !is_thread {
            return Err(AppError::bad_request("seuls les fils peuvent être archivés"));
        } else {
            a
        },
        None => cur.archived,
    };
    let locked = match req.locked {
        Some(l) => if !is_thread {
            return Err(AppError::bad_request("seuls les fils peuvent être verrouillés"));
        } else {
            l
        },
        None => cur.locked,
    };
    Ok((bitrate, user_limit, region, vq, auto, archived, locked))
}

/// A fresh guild invitation code: at most eight letters and digits of a random token.
pub fn gen_code() -> (r: String)
    ensures
        exists|t: Seq<char>| is_random_token(t) && r@ == #[trigger] code_of(t, 8),
{
    random_code(8)
}

} // verus!
