//! Message rules: what a new or edited message may hold, and the posting rules of a
//! channel (locked threads, member timeouts, slowmode, pins, bulk deletion).

use vstd::prelude::*;
use crate::embeds::{MessageEmbed, embed_views, sanitize_embeds, sanitize_embeds_spec};
use crate::error::{AppError, is_bad_request, is_forbidden, is_too_many};
use crate::perms::{
    has, has_spec, BYPASS_SLOWMODE, EMBED_LINKS, MANAGE_CHANNELS, MANAGE_MESSAGES,
};
use crate::text::{char_count, concat, byte_len, trim, trim_end, trim_end_spec, trim_spec};
use crate::auth::utf8_len;

verus! {

/// Largest size of an end-to-end encrypted payload, in bytes.
pub const MAX_CIPHER_BYTES: usize = 65536;
/// Largest number of characters of a message.
pub const MAX_CONTENT_CHARS: usize = 4000;
/// Largest number of pinned messages in a channel.
pub const MAX_PINS: i64 = 250;

/// Channel types of threads.
pub const THREAD_KIND_PUBLIC: i64 = 11;
pub const THREAD_KIND_PRIVATE: i64 = 12;

/// What is stored of a new message once its body is accepted.
pub struct MessageBody {
    /// Text (trailing whitespace removed; empty when the message is encrypted).
    pub content: String,
    /// Opaque encrypted payload (direct messages only).
    pub cipher: Option<String>,
    /// The cleaned embeds (empty: none).
    pub embeds: Vec<MessageEmbed>,
}

/// The trimmed cipher, absent when blank.
pub open spec fn cipher_of(cipher: Option<Seq<char>>) -> Option<Seq<char>> {
    match cipher {
        Some(c) => if trim_spec(c).len() == 0 {
            None
        } else {
            Some(trim_spec(c))
        },
        None => None,
    }
}

/// The error, if any, of a new message body (in the order the checks apply).
pub open spec fn message_body_problem(
    guild_id: i64,
    perms: u64,
    content: Seq<char>,
    cipher: Option<Seq<char>>,
    embeds: Seq<crate::embeds::EmbedView>,
    attachment_count: nat,
    has_sticker: bool,
) -> Option<(bool, Seq<char>)> {
    let c = cipher_of(cipher);
    let text = if c is Some {
        Seq::<char>::empty()
    } else {
        trim_end_spec(content)
    };
    let cleaned = sanitize_embeds_spec(embeds);
    if c is Some && guild_id != 0 {
        Some(
            (
                false,
                "le chiffrement de bout en bout n'est disponible qu'en message privé"@,
            ),
        )
    } else if c is Some && utf8_len(c->0) > MAX_CIPHER_BYTES {
        Some((false, "charge chiffrée trop volumineuse"@))
    } else if embeds.len() > 0 && !has_spec(perms, EMBED_LINKS) {
        Some((true, "permission « Intégrer des liens » requise pour les embeds"@))
    } else if (text.len() == 0 && attachment_count == 0 && !has_sticker && (embeds.len() == 0
        || cleaned.len() == 0) && c is None) || text.len() > MAX_CONTENT_CHARS {
        Some(
            (
                false,
                "contenu de message invalide (1 à 4000 caractères, ou une pièce jointe / un sticker / un embed)"@,
            ),
        )
    } else {
        None
    }
}

/// View of an optional string slice.
pub open spec fn opt_str(s: Option<&str>) -> Option<Seq<char>> {
    match s {
        Some(t) => Some(t@),
        None => None,
    }
}

/// Checks the body of a new message.
///
/// With an encrypted payload (allowed in direct messages only, at most 64 KiB) any plain
/// text is ignored. Embeds need `EMBED_LINKS`. A message needs text of 1 to 4000
/// characters, or else an attachment, a sticker, a kept embed or a cipher. A refused
/// body is a 400, a missing embed permission a 403.
pub fn check_message_body(
    guild_id: i64,
    perms: u64,
    content: &str,
    cipher: Option<&str>,
    embeds: Vec<MessageEmbed>,
    attachment_count: usize,
    has_sticker: bool,
) -> (r: Result<MessageBody, AppError>)
    ensures
        match message_body_problem(
            guild_id,
            perms,
            content@,
            opt_str(cipher),
            embed_views(embeds@),
            attachment_count as nat,
            has_sticker,
        ) {
            Some((true, m)) => r is Err && is_forbidden(r->Err_0, m),
            Some((false, m)) => r is Err && is_bad_request(r->Err_0, m),
            None => r is Ok && {
                let b = r->Ok_0;
                &&& b.cipher is Some <==> cipher_of(opt_str(cipher)) is Some
                &&& b.cipher is Some ==> b.cipher->0@ == cipher_of(opt_str(cipher))->0
                &&& b.content@ == (if b.cipher is Some {
                    Seq::<char>::empty()
                } else {
                    trim_end_spec(content@)
                })
                &&& embed_views(b.embeds@) == sanitize_embeds_spec(embed_views(embeds@))
            },
        },
{
    let trimmed = trim_end(content);
    let c: Option<String> = match cipher {
        Some(x) => {
            let t = trim(x);
            if char_count(t.as_str()) == 0 {
                None
            } else {
                Some(t)
            }
        },
        None => None,
    };
    match &c {
        Some(x) => {
            if guild_id != 0 {
                return Err(
                    AppError::bad_request(
                        "le chiffrement de bout en bout n'est disponible qu'en message privé",
                    ),
                );
            }
            if byte_len(x.as_str()) > MAX_CIPHER_BYTES {
                return Err(AppError::bad_request("charge chiffrée trop volumineuse"));
            }
        },
        None => {},
    }
    let text: String = if c.is_some() {
        String::new()
    } else {
        trimmed
    };
    let n_embeds = embeds.len();
    let cleaned: Vec<MessageEmbed> = if n_embeds == 0 {
        Vec::new()
    } else {
        if !crate::perms::has(perms, EMBED_LINKS) {
            return Err(
                AppError::forbidden("permission « Intégrer des liens » requise pour les embeds"),
            );
        }
        sanitize_embeds(embeds)
    };
    proof {
        if n_embeds == 0 {
            reveal_with_fuel(crate::embeds::clean_embeds, 1);
            assert(crate::embeds::prefix(embed_views(embeds@), 10) =~= Seq::empty());
        }
    }
    let count = char_count(text.as_str());
    if (count == 0 && attachment_count == 0 && !has_sticker && cleaned.len() == 0 && c.is_none())
        || count > MAX_CONTENT_CHARS {
        return Err(
            AppError::bad_request(
                "contenu de message invalide (1 à 4000 caractères, ou une pièce jointe / un sticker / un embed)",
            ),
        );
    }
    Ok(MessageBody { content: text, cipher: c, embeds: cleaned })
}

/// Outcome of [`check_thread_state`]: whether the thread must be unarchived.
pub open spec fn thread_state_outcome(
    thread: Option<(i64, bool, bool)>,
    perms: u64,
    r: Result<bool, AppError>,
) -> bool {
    match thread {
        Some((kind, archived, locked)) => if kind == THREAD_KIND_PUBLIC || kind
            == THREAD_KIND_PRIVATE {
            if locked && !has_spec(perms, MANAGE_CHANNELS) {
                r is Err && is_forbidden(r->Err_0, "ce fil est verrouillé"@)
            } else {
                r == Ok::<bool, AppError>(archived)
            }
        } else {
            r == Ok::<bool, AppError>(false)
        },
        None => r == Ok::<bool, AppError>(false),
    }
}

/// Posting in a thread: a locked thread accepts only moderators (`MANAGE_CHANNELS`); an
/// archived (unlocked) thread is revived by the post. `thread` is the channel's
/// `(type, archived, locked)`.
pub fn check_thread_state(thread: Option<(i64, bool, bool)>, perms: u64) -> (r: Result<
    bool,
    AppError,
>)
    ensures
        thread_state_outcome(thread, perms, r),
{
    match thread {
        Some((kind, archived, locked)) => {
            if kind == THREAD_KIND_PUBLIC || kind == THREAD_KIND_PRIVATE {
                if locked && !crate::perms::has(perms, MANAGE_CHANNELS) {
                    return Err(AppError::forbidden("ce fil est verrouillé"));
                }
                Ok(archived)
            } else {
                Ok(false)
            }
        },
        None => Ok(false),
    }
}

/// A member in timeout (until a time after `now`) cannot post in a guild channel.
pub fn check_timeout(guild_id: i64, disabled_until: Option<i64>, now: i64) -> (r: Result<
    (),
    AppError,
>)
    ensures
        (guild_id != 0 && disabled_until is Some && disabled_until->0 > now) <==> r is Err,
        r is Err ==> is_forbidden(r->Err_0, "vous êtes temporairement en sourdine (timeout)"@),
{
    if guild_id != 0 {
        match disabled_until {
            Some(until) => if until > now {
                return Err(AppError::forbidden("vous êtes temporairement en sourdine (timeout)"));
            },
            None => {},
        }
    }
    Ok(())
}

/// Moderators (`MANAGE_MESSAGES`, `MANAGE_CHANNELS` or `BYPASS_SLOWMODE`) ignore slowmode.
pub fn slowmode_exempt(perms: u64) -> (r: bool)
    ensures
        r == (has_spec(perms, MANAGE_MESSAGES) || has_spec(perms, MANAGE_CHANNELS) || has_spec(
            perms,
            BYPASS_SLOWMODE,
        )),
{
    has(perms, MANAGE_MESSAGES) || has(perms, MANAGE_CHANNELS) || has(perms, BYPASS_SLOWMODE)
}

/// Slowmode of `rate` seconds: the author's previous message in the channel (at
/// `last_at`, in ms) must be at least `rate` seconds old at `now`.
pub fn check_slowmode(rate: i64, last_at: Option<i64>, now: i64) -> (r: Result<(), AppError>)
    ensures
        (rate > 0 && last_at is Some && now - last_at->0 < rate * 1000) <==> r is Err,
        r is Err ==> is_too_many(r->Err_0, "slowmode actif, réessayez plus tard"@),
{
    if rate > 0 {
        match last_at {
            Some(last) => if (now as i128) - (last as i128) < (rate as i128) * 1000 {
                return Err(AppError::too_many("slowmode actif, réessayez plus tard"));
            },
            None => {},
        }
    }
    Ok(())
}

/// Error of a message refused by auto-moderation rule `rule`.
pub fn automod_blocked(rule: &str) -> (e: AppError)
    ensures
        is_forbidden(e, "message bloqué par l'auto-modération ("@ + rule@ + ")"@),
{
    let a = concat("message bloqué par l'auto-modération (", rule);
    let b = concat(a.as_str(), ")");
    AppError::forbidden(b.as_str())
}

/// Outcome of [`check_edit_content`]: the new text, without trailing whitespace, 1 to
/// 4000 characters.
pub fn check_edit_content(content: &str) -> (r: Result<String, AppError>)
    ensures
        ({
            let t = trim_end_spec(content@);
            if t.len() == 0 || t.len() > MAX_CONTENT_CHARS {
                r is Err && is_bad_request(r->Err_0, "contenu de message invalide (1 à 4000 caractères)"@)
            } else {
                r is Ok && r->Ok_0@ == t
            }
        }),
{
    let t = trim_end(content);
    let n = char_count(t.as_str());
    if n == 0 || n > MAX_CONTENT_CHARS {
        return Err(AppError::bad_request("contenu de message invalide (1 à 4000 caractères)"));
    }
    Ok(t)
}

/// What an edit replaces.
pub enum EditPlan {
    /// The encrypted payload (the text becomes empty).
    Cipher(String),
    /// The text, without trailing whitespace.
    Content(String),
}

/// Checks an edit: only the author edits; an encrypted payload (non-blank, trimmed) is
/// allowed in direct messages only and up to 64 KiB; otherwise the text must have 1 to
/// 4000 characters once trailing whitespace is removed.
pub fn plan_edit(is_author: bool, guild_id: i64, cipher: Option<&str>, content: &str) -> (r: Result<EditPlan, AppError>)
    ensures
        !is_author ==> (r matches Err(e) && is_forbidden(e, "vous n'êtes pas l'auteur de ce message"@)),
        is_author ==> match cipher_of(opt_str(cipher)) {
            Some(c) => if guild_id != 0 {
                r matches Err(e) && is_bad_request(
                    e,
                    "le chiffrement de bout en bout n'est disponible qu'en message privé"@,
                )
            } else if utf8_len(c) > MAX_CIPHER_BYTES {
                r matches Err(e) && is_bad_request(e, "charge chiffrée trop volumineuse"@)
            } else {
                r matches Ok(EditPlan::Cipher(x)) && x@ == c
            },
            None => {
                let t = trim_end_spec(content@);
                if t.len() == 0 || t.len() > MAX_CONTENT_CHARS {
                    r matches Err(e) && is_bad_request(e, "contenu de message invalide (1 à 4000 caractères)"@)
                } else {
                    r matches Ok(EditPlan::Content(x)) && x@ == t
                }
            },
        },
{
    if !is_author {
        return Err(AppError::forbidden("vous n'êtes pas l'auteur de ce message"));
    }
    let c = match cipher {
        Some(raw) => {
            let t = trim(raw);
            if char_count(t.as_str()) == 0 {
                None
            } else {
                Some(t)
            }
        },
        None => None,
    };
    match c {
        Some(c) => {
            if guild_id != 0 {
                return Err(AppError::bad_request("le chiffrement de bout en bout n'est disponible qu'en message privé"));
            }
            if byte_len(c.as_str()) > MAX_CIPHER_BYTES {
                return Err(AppError::bad_request("charge chiffrée trop volumineuse"));
            }
            Ok(EditPlan::Cipher(c))
        },
        None => match check_edit_content(content) {
            Ok(t) => Ok(EditPlan::Content(t)),
            Err(e) => Err(e),
        },
    }
}

/// Deleting a message: its author, or a holder of `MANAGE_MESSAGES`.
pub fn check_delete(is_author: bool, perms: u64) -> (r: Result<(), AppError>)
    ensures
        (!is_author && !has_spec(perms, MANAGE_MESSAGES)) <==> r is Err,
        r is Err ==> is_forbidden(r->Err_0, "permissions insuffisantes pour supprimer ce message"@),
{
    if !is_author && !crate::perms::has(perms, MANAGE_MESSAGES) {
        return Err(AppError::forbidden("permissions insuffisantes pour supprimer ce message"));
    }
    Ok(())
}

/// A bulk deletion names 1 to 100 messages.
pub fn check_bulk_count(count: usize) -> (r: Result<(), AppError>)
    ensures
        (count == 0 || count > 100) <==> r is Err,
        r is Err ==> is_bad_request(r->Err_0, "entre 1 et 100 messages par suppression en masse"@),
{
    if count == 0 || count > 100 {
        return Err(AppError::bad_request("entre 1 et 100 messages par suppression en masse"));
    }
    Ok(())
}

/// A channel holds at most [`MAX_PINS`] pinned messages.
pub fn check_pin_count(pinned: i64) -> (r: Result<(), AppError>)
    ensures
        (pinned >= MAX_PINS) <==> r is Err,
        r is Err ==> is_bad_request(r->Err_0, "nombre maximal de messages épinglés atteint (250)"@),
{
    if pinned >= MAX_PINS {
        return Err(AppError::bad_request("nombre maximal de messages épinglés atteint (250)"));
    }
    Ok(())
}

/// A reaction emoji is 1 to 64 characters.
pub fn check_reaction_emoji(emoji: &str) -> (r: Result<(), AppError>)
    ensures
        (emoji@.len() == 0 || emoji@.len() > 64) <==> r is Err,
        r is Err ==> is_bad_request(r->Err_0, "emoji invalide"@),
{
    let n = char_count(emoji);
    if n == 0 || n > 64 {
        return Err(AppError::bad_request("emoji invalide"));
    }
    Ok(())
}

/// Page size of a message listing: 50 by default, clamped to `1..=100`.
pub fn page_limit(limit: Option<i64>) -> (r: i64)
    ensures
        r == match limit {
            Some(l) => if l < 1 {
                1
            } else if l > 100 {
                100
            } else {
                l
            },
            None => 50,
        },
        1 <= r <= 100,
{
    let l = match limit {
        Some(l) => l,
        None => 50,
    };
    if l < 1 {
        1
    } else if l > 100 {
        100
    } else {
        l
    }
}

/// Messages taken on each side of the anchor of an `around` listing.
pub fn around_half(limit: i64) -> (r: i64)
    requires
        1 <= limit <= 100,
    ensures
        r == if limit / 2 < 1 {
            1
        } else {
            limit / 2
        },
{
    let h = limit / 2;
    if h < 1 {
        1
    } else {
        h
    }
}

/// Removing trailing whitespace never lengthens a text.
proof fn lemma_trim_end_shorter(s: Seq<char>)
    ensures
        trim_end_spec(s).len() <= s.len(),
    decreases s.len(),
{
    if s.len() > 0 && crate::text::is_whitespace_spec(s.last()) {
        lemma_trim_end_shorter(s.drop_last());
    }
}

/// A message needs no text when it carries a sticker or an attachment: without a cipher
/// or embeds, any text of at most 4000 characters (blank included) is accepted, in a
/// guild channel or a conversation, whatever the author's permissions.
pub proof fn law_sticker_or_attachment_needs_no_text(
    guild_id: i64,
    perms: u64,
    content: Seq<char>,
    attachment_count: nat,
    has_sticker: bool,
)
    requires
        content.len() <= MAX_CONTENT_CHARS,
        has_sticker || attachment_count > 0,
    ensures
        message_body_problem(
            guild_id,
            perms,
            content,
            None,
            Seq::empty(),
            attachment_count,
            has_sticker,
        ) is None,
{
    lemma_trim_end_shorter(content);
}

/// The text bounds of a plain message (no cipher): text of 1 to 4000 characters once its
/// trailing whitespace is removed is enough when there are no embeds, and a longer text
/// is refused whatever else the message carries (the 400 invalid-content error).
pub proof fn law_plain_text_bounds(
    guild_id: i64,
    perms: u64,
    content: Seq<char>,
    embeds: Seq<crate::embeds::EmbedView>,
    attachment_count: nat,
    has_sticker: bool,
)
    ensures
        (embeds.len() == 0 && 1 <= trim_end_spec(content).len() <= MAX_CONTENT_CHARS)
            ==> message_body_problem(guild_id, perms, content, None, embeds, attachment_count, has_sticker)
            is None,
        (trim_end_spec(content).len() > MAX_CONTENT_CHARS && (embeds.len() == 0 || has_spec(
            perms,
            EMBED_LINKS,
        ))) ==> message_body_problem(guild_id, perms, content, None, embeds, attachment_count, has_sticker)
            == Some(
            (
                false,
                "contenu de message invalide (1 à 4000 caractères, ou une pièce jointe / un sticker / un embed)"@,
            ),
        ),
{
}

/// End-to-end encrypted payloads exist only in conversations: a non-blank cipher in a
/// guild channel is refused (400).
pub proof fn law_cipher_only_in_conversations(
    guild_id: i64,
    perms: u64,
    content: Seq<char>,
    cipher: Seq<char>,
    embeds: Seq<crate::embeds::EmbedView>,
    attachment_count: nat,
    has_sticker: bool,
)
    requires
        guild_id != 0,
        trim_spec(cipher).len() > 0,
    ensures
        message_body_problem(guild_id, perms, content, Some(cipher), embeds, attachment_count, has_sticker)
            == Some((false, "le chiffrement de bout en bout n'est disponible qu'en message privé"@)),
{
}

/// Embeds need `EMBED_LINKS`: a plain message that carries embeds is refused with a 403
/// when the author lacks it. An encrypted conversation message of at most 64 KiB without
/// embeds is accepted, whatever its plain text.
pub proof fn law_embeds_and_ciphers(
    guild_id: i64,
    perms: u64,
    content: Seq<char>,
    cipher: Option<Seq<char>>,
    embeds: Seq<crate::embeds::EmbedView>,
    attachment_count: nat,
    has_sticker: bool,
)
    ensures
        (cipher is None && embeds.len() > 0 && !has_spec(perms, EMBED_LINKS)) ==> message_body_problem(
            guild_id,
            perms,
            content,
            cipher,
            embeds,
            attachment_count,
            has_sticker,
        ) == Some((true, "permission « Intégrer des liens » requise pour les embeds"@)),
        (guild_id == 0 && embeds.len() == 0 && (cipher matches Some(c) && trim_spec(c).len() > 0
            && utf8_len(trim_spec(c)) <= MAX_CIPHER_BYTES)) ==> message_body_problem(
            guild_id,
            perms,
            content,
            cipher,
            embeds,
            attachment_count,
            has_sticker,
        ) is None,
        (guild_id == 0 && (cipher matches Some(c) && utf8_len(trim_spec(c)) > MAX_CIPHER_BYTES))
            ==> message_body_problem(guild_id, perms, content, cipher, embeds, attachment_count, has_sticker)
            == Some((false, "charge chiffrée trop volumineuse"@)),
{
}

} // verus!
