//! Incoming webhooks: where they may live, how they move, and the checks of an execution
//! authenticated by the secret token in its URL.

use vstd::prelude::*;
use crate::error::{AppError, is_bad_request, is_not_found, is_unauthorized};
use crate::text::{char_count, str_eq, trim_end, trim_end_spec};
use crate::validate::{validate_webhook_name, validate_webhook_name_spec};

verus! {

/// Longest message posted by a webhook, in characters.
pub const MAX_WEBHOOK_CONTENT: usize = 4000;

/// Webhooks exist only in guild channels (`guild_id` is `0` for a conversation).
pub fn check_webhook_channel(guild_id: i64) -> (r: Result<(), AppError>)
    ensures
        guild_id != 0 ==> r is Ok,
        guild_id == 0 ==> (r matches Err(e) && is_bad_request(
            e,
            "les webhooks ne sont pas disponibles en messages privés"@,
        )),
{
    if guild_id == 0 {
        Err(AppError::bad_request("les webhooks ne sont pas disponibles en messages privés"))
    } else {
        Ok(())
    }
}

/// A webhook moves only to a channel of its own guild.
pub fn check_webhook_move(target_guild: i64, guild_id: i64) -> (r: Result<(), AppError>)
    ensures
        target_guild == guild_id ==> r is Ok,
        target_guild != guild_id ==> (r matches Err(e) && is_bad_request(
            e,
            "le salon cible doit appartenir à la même guilde"@,
        )),
{
    if target_guild != guild_id {
        Err(AppError::bad_request("le salon cible doit appartenir à la même guilde"))
    } else {
        Ok(())
    }
}

/// Authenticates an execution: the webhook must exist and the presented token be its
/// token; an unknown webhook and a wrong token get the same answer.
pub fn authorize_execution(stored_token: Option<&str>, presented: &str) -> (r: Result<(), AppError>)
    ensures
        r is Ok <==> (stored_token matches Some(t) && t@ == presented@),
        r matches Err(e) ==> is_unauthorized(e, "webhook ou jeton invalide"@),
{
    match stored_token {
        Some(t) => if str_eq(t, presented) {
            Ok(())
        } else {
            Err(AppError::unauthorized("webhook ou jeton invalide"))
        },
        None => Err(AppError::unauthorized("webhook ou jeton invalide")),
    }
}

/// A message as a webhook posts it.
pub struct WebhookPost {
    /// The content without trailing whitespace.
    pub content: String,
    /// The display name: the override sent (validated, trimmed) or the webhook's name.
    pub name: String,
    pub avatar_id: Option<String>,
}

/// The display name of a post, or the error.
pub open spec fn name_of(r: Result<WebhookPost, AppError>) -> Result<String, AppError> {
    match r {
        Ok(p) => Ok(p.name),
        Err(e) => Err(e),
    }
}

/// View of an optional string.
pub open spec fn opt_chars(s: Option<String>) -> Option<Seq<char>> {
    match s {
        Some(v) => Some(v@),
        None => None,
    }
}

/// Checks an execution once authenticated: the channel must still exist, the content
/// (without trailing whitespace) must have 1 to 4000 characters, and a name override must
/// be a valid webhook name. The avatar sent replaces the webhook's.
pub fn plan_execution(
    channel_exists: bool,
    content: &str,
    username: Option<&str>,
    avatar_id: Option<String>,
    webhook_name: String,
    webhook_avatar: Option<String>,
) -> (r: Result<WebhookPost, AppError>)
    ensures
        !channel_exists ==> (r matches Err(e) && is_not_found(e, "salon du webhook introuvable"@)),
        channel_exists && !(1 <= trim_end_spec(content@).len() <= 4000) ==> (r matches Err(e)
            && is_bad_request(e, "contenu de message invalide (1 à 4000 caractères)"@)),
        channel_exists && 1 <= trim_end_spec(content@).len() <= 4000 ==> match username {
            Some(u) => {
                &&& validate_webhook_name_spec(u@, name_of(r))
                &&& r matches Ok(p) ==> p.content@ == trim_end_spec(content@) && opt_chars(p.avatar_id) == (
                if avatar_id is Some { opt_chars(avatar_id) } else { opt_chars(webhook_avatar) })
            },
            None => r matches Ok(p) && p.content@ == trim_end_spec(content@) && p.name@ == webhook_name@
                && opt_chars(p.avatar_id) == (if avatar_id is Some {
                opt_chars(avatar_id)
            } else {
                opt_chars(webhook_avatar)
            }),
        },
{
    if !channel_exists {
        return Err(AppError::not_found("salon du webhook introuvable"));
    }
    let c = trim_end(content);
    let n = char_count(c.as_str());
    if n == 0 || n > MAX_WEBHOOK_CONTENT {
        return Err(AppError::bad_request("contenu de message invalide (1 à 4000 caractères)"));
    }
    let name = match username {
        Some(u) => match validate_webhook_name(u) {
            Ok(v) => v,
            Err(e) => return Err(e),
        },
        None => webhook_name,
    };
    let avatar = match avatar_id {
        Some(a) => Some(a),
        None => webhook_avatar,
    };
    Ok(WebhookPost { content: c, name, avatar_id: avatar })
}

} // verus!
