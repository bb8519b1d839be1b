//! Guild expressions (custom emojis, stickers, soundboard sounds): who may create and
//! manage them, which values they accept, and the files uploaded for them.

use vstd::prelude::*;
use vstd::string::StringSliceAdditionalSpecFns;
use crate::auth::utf8_len;
use crate::error::{AppError, is_bad_request, is_forbidden};
use crate::perms::{has, has_spec, CREATE_GUILD_EXPRESSIONS, MANAGE_GUILD_EXPRESSIONS};
use crate::text::{byte_len, trim, trim_spec};
use crate::validate::{
    all_chars_in, audio_type_spec, detect_audio_type, detect_image_type, image_type_spec,
    validate_emoji_name,
};

verus! {

/// Largest emoji image, in bytes (512 KiB).
pub const MAX_EMOJI_SIZE: usize = 524_288;
/// Largest sticker, guild or user image, in bytes (2 MiB).
pub const MAX_IMAGE_SIZE: usize = 2_097_152;
/// Largest soundboard sound, in bytes (1 MiB).
pub const MAX_SOUND_SIZE: usize = 1_048_576;

/// Creating an expression takes `CREATE_GUILD_EXPRESSIONS` or `MANAGE_GUILD_EXPRESSIONS`.
pub fn require_expression_create(perms: u64) -> (r: Result<(), AppError>)
    ensures
        has_spec(perms, CREATE_GUILD_EXPRESSIONS) || has_spec(perms, MANAGE_GUILD_EXPRESSIONS) <==> r is Ok,
        r matches Err(e) ==> is_forbidden(e, "permissions insuffisantes"@),
{
    if has(perms, CREATE_GUILD_EXPRESSIONS) || has(perms, MANAGE_GUILD_EXPRESSIONS) {
        Ok(())
    } else {
        Err(AppError::forbidden("permissions insuffisantes"))
    }
}

/// Changing or deleting an expression takes `MANAGE_GUILD_EXPRESSIONS`, or
/// `CREATE_GUILD_EXPRESSIONS` for its author.
pub fn require_expression_manage(perms: u64, user_id: i64, created_by: i64) -> (r: Result<(), AppError>)
    ensures
        has_spec(perms, MANAGE_GUILD_EXPRESSIONS) || (user_id == created_by && has_spec(
            perms,
            CREATE_GUILD_EXPRESSIONS,
        )) <==> r is Ok,
        r matches Err(e) ==> is_forbidden(e, "permissions insuffisantes"@),
{
    if has(perms, MANAGE_GUILD_EXPRESSIONS) || (user_id == created_by && has(perms, CREATE_GUILD_EXPRESSIONS)) {
        Ok(())
    } else {
        Err(AppError::forbidden("permissions insuffisantes"))
    }
}

/// An emoji name (trimmed) is 2 to 32 bytes of ASCII letters, digits and `_`.
pub open spec fn emoji_name_problem(name: Seq<char>) -> Option<Seq<char>> {
    let t = trim_spec(name);
    if !(2 <= utf8_len(t) <= 32) {
        Some("le nom de l'emoji doit faire entre 2 et 32 caractères"@)
    } else if !all_chars_in(t, seq!['_']) {
        Some("le nom de l'emoji ne peut contenir que des lettres, chiffres et tirets bas"@)
    } else {
        None
    }
}

/// Checks a new emoji name (trimmed, which it answers) and its image, or a new name
/// alone when `image_id` is `None`.
pub fn check_emoji(name: &str, image_id: Option<&str>) -> (r: Result<String, AppError>)
    ensures
        match emoji_name_problem(name@) {
            Some(m) => r matches Err(e) && is_bad_request(e, m),
            None => if image_id matches Some(i) && i@.len() == 0 {
                r matches Err(e) && is_bad_request(e, "image_id ne peut pas être vide"@)
            } else {
                r matches Ok(n) && n@ == trim_spec(name@)
            },
        },
{
    let t = trim(name);
    match validate_emoji_name(t.as_str()) {
        Ok(()) => {},
        Err(e) => return Err(e),
    }
    match image_id {
        Some(i) => if crate::text::char_count(i) == 0 {
            return Err(AppError::bad_request("image_id ne peut pas être vide"));
        },
        None => {},
    }
    Ok(t)
}

/// Sticker name check: trimmed, 2 to 30 bytes.
pub open spec fn sticker_name_ok(name: Seq<char>) -> bool {
    2 <= utf8_len(trim_spec(name)) <= 30
}

/// View of an optional string slice.
pub open spec fn opt_view(s: Option<&str>) -> Option<Seq<char>> {
    match s {
        Some(v) => Some(v@),
        None => None,
    }
}

/// The first problem of sticker fields, in the order they are checked.
pub open spec fn sticker_fields_problem(name: Option<Seq<char>>, description: Option<Seq<char>>, tags: Option<Seq<char>>) -> Option<Seq<char>> {
    if name matches Some(n) && !sticker_name_ok(n) {
        Some("le nom du sticker doit comporter entre 2 et 30 caractères"@)
    } else if description matches Some(d) && utf8_len(d) > 100 {
        Some("la description ne peut pas dépasser 100 caractères"@)
    } else if tags matches Some(t) && utf8_len(t) > 200 {
        Some("les tags ne peuvent pas dépasser 200 caractères"@)
    } else {
        None
    }
}

/// Checks the name, description and tags of a sticker (each when given); answers the
/// trimmed name.
pub fn check_sticker_fields(name: Option<&str>, description: Option<&str>, tags: Option<&str>) -> (r: Result<Option<String>, AppError>)
    ensures
        match sticker_fields_problem(opt_view(name), opt_view(description), opt_view(tags)) {
            Some(m) => r matches Err(e) && is_bad_request(e, m),
            None => r matches Ok(n) && (match name {
                Some(x) => n matches Some(t) && t@ == trim_spec(x@),
                None => n is None,
            }),
        },
{
    let trimmed = match name {
        Some(n) => {
            let t = trim(n);
            let len = byte_len(t.as_str());
            if !(2 <= len && len <= 30) {
                return Err(AppError::bad_request("le nom du sticker doit comporter entre 2 et 30 caractères"));
            }
            Some(t)
        },
        None => None,
    };
    match description {
        Some(d) => if byte_len(d) > 100 {
            return Err(AppError::bad_request("la description ne peut pas dépasser 100 caractères"));
        },
        None => {},
    }
    match tags {
        Some(t) => if byte_len(t) > 200 {
            return Err(AppError::bad_request("les tags ne peuvent pas dépasser 200 caractères"));
        },
        None => {},
    }
    Ok(trimmed)
}

/// Checks a new sticker: its fields, a non-blank asset and a format among 1 (PNG),
/// 2 (APNG), 3 (Lottie) and 4 (GIF); answers the trimmed name.
pub fn check_new_sticker(name: &str, description: Option<&str>, tags: Option<&str>, asset_id: &str, format_type: u8) -> (r: Result<String, AppError>)
    ensures
        match sticker_fields_problem(Some(name@), opt_view(description), opt_view(tags)) {
            Some(m) => r matches Err(e) && is_bad_request(e, m),
            None => if trim_spec(asset_id@).len() == 0 {
                r matches Err(e) && is_bad_request(e, "l'identifiant d'asset ne peut pas être vide"@)
            } else if !(1 <= format_type <= 4) {
                r matches Err(e) && is_bad_request(
                    e,
                    "format_type invalide (valeurs acceptées : 1 png, 2 apng, 3 lottie, 4 gif)"@,
                )
            } else {
                r matches Ok(n) && n@ == trim_spec(name@)
            },
        },
{
    let n = match check_sticker_fields(Some(name), description, tags) {
        Ok(Some(n)) => n,
        Ok(None) => return Err(AppError::bad_request("le nom du sticker doit comporter entre 2 et 30 caractères")),
        Err(e) => return Err(e),
    };
    let a = trim(asset_id);
    if crate::text::char_count(a.as_str()) == 0 {
        return Err(AppError::bad_request("l'identifiant d'asset ne peut pas être vide"));
    }
    if !(1 <= format_type && format_type <= 4) {
        return Err(AppError::bad_request("format_type invalide (valeurs acceptées : 1 png, 2 apng, 3 lottie, 4 gif)"));
    }
    Ok(n)
}

/// Sound name check: trimmed, 2 to 32 bytes.
pub open spec fn sound_name_ok(name: Seq<char>) -> bool {
    2 <= utf8_len(trim_spec(name)) <= 32
}

/// Checks a new soundboard sound: a trimmed name of 2 to 32 bytes, a sound, an emoji
/// of at most 64 bytes; answers the trimmed name.
pub fn check_new_sound(name: &str, sound_id: &str, emoji: Option<&str>) -> (r: Result<String, AppError>)
    ensures
        !sound_name_ok(name@) ==> (r matches Err(e) && is_bad_request(e, "le nom du son doit faire entre 2 et 32 caractères"@)),
        sound_name_ok(name@) && sound_id@.len() == 0 ==> (r matches Err(e) && is_bad_request(
            e,
            "sound_id ne peut pas être vide"@,
        )),
        sound_name_ok(name@) && sound_id@.len() > 0 && (emoji matches Some(x) && utf8_len(x@) > 64) ==> (r matches Err(
            e,
        ) && is_bad_request(e, "l'emoji ne peut pas dépasser 64 caractères"@)),
        sound_name_ok(name@) && sound_id@.len() > 0 && !(emoji matches Some(x) && utf8_len(x@) > 64) ==> (r matches Ok(
            n,
        ) && n@ == trim_spec(name@)),
{
    let t = trim(name);
    let len = byte_len(t.as_str());
    if !(2 <= len && len <= 32) {
        return Err(AppError::bad_request("le nom du son doit faire entre 2 et 32 caractères"));
    }
    if crate::text::char_count(sound_id) == 0 {
        return Err(AppError::bad_request("sound_id ne peut pas être vide"));
    }
    match emoji {
        Some(e) => if byte_len(e) > 64 {
            return Err(AppError::bad_request("l'emoji ne peut pas dépasser 64 caractères"));
        },
        None => {},
    }
    Ok(t)
}

/// Checks a soundboard update: the name and the emoji when sent (the volume is clamped
/// to `0..=1` by the caller); answers the trimmed name when sent.
pub fn check_sound_update(name: Option<&str>, emoji: Option<&str>) -> (r: Result<Option<String>, AppError>)
    ensures
        (name matches Some(n) && !sound_name_ok(n@)) ==> (r matches Err(e) && is_bad_request(
            e,
            "le nom du son doit faire entre 2 et 32 caractères"@,
        )),
        !(name matches Some(n) && !sound_name_ok(n@)) && (emoji matches Some(x) && utf8_len(x@) > 64) ==> (r matches Err(
            e,
        ) && is_bad_request(e, "l'emoji ne peut pas dépasser 64 caractères"@)),
        !(name matches Some(n) && !sound_name_ok(n@)) && !(emoji matches Some(x) && utf8_len(x@) > 64) ==> (r matches Ok(
            t,
        ) && (match name {
            Some(n) => t matches Some(s) && s@ == trim_spec(n@),
            None => t is None,
        })),
{
    let t = match name {
        Some(n) => {
            let t = trim(n);
            let len = byte_len(t.as_str());
            if !(2 <= len && len <= 32) {
                return Err(AppError::bad_request("le nom du son doit faire entre 2 et 32 caractères"));
            }
            Some(t)
        },
        None => None,
    };
    match emoji {
        Some(e) => if byte_len(e) > 64 {
            return Err(AppError::bad_request("l'emoji ne peut pas dépasser 64 caractères"));
        },
        None => {},
    }
    Ok(t)
}

/// What an uploaded file must be.
#[derive(Clone, Copy, Debug, PartialEq, Eq, Structural)]
pub enum UploadKind {
    /// An emoji image (512 KiB at most).
    EmojiImage,
    /// A sticker, guild or user image (2 MiB at most).
    Image,
    /// A soundboard sound (1 MiB at most).
    Sound,
}

/// Largest file of each kind, in bytes.
pub open spec fn upload_limit(kind: UploadKind) -> int {
    match kind {
        UploadKind::EmojiImage => 524_288,
        UploadKind::Image => 2_097_152,
        UploadKind::Sound => 1_048_576,
    }
}

/// Checks an uploaded file: present, not empty, within the size of its kind, and an
/// image (PNG, GIF, WebP, JPEG) or a sound (MP3, Ogg, WAV) as its first bytes show.
pub fn check_upload(kind: UploadKind, data: Option<&[u8]>) -> (r: Result<(), AppError>)
    ensures
        match data {
            None => r matches Err(e) && is_bad_request(e, "aucun fichier fourni"@),
            Some(d) => if d@.len() == 0 {
                r matches Err(e) && is_bad_request(e, "fichier vide"@)
            } else if d@.len() > upload_limit(kind) {
                r matches Err(e) && is_bad_request(
                    e,
                    match kind {
                        UploadKind::EmojiImage => "image trop volumineuse (max 512 Kio)"@,
                        UploadKind::Image => "image trop volumineuse (max 2 Mio)"@,
                        UploadKind::Sound => "son trop volumineux (max 1 Mio)"@,
                    },
                )
            } else if kind == UploadKind::Sound {
                if audio_type_spec(d@) is None {
                    r matches Err(e) && is_bad_request(e, "format audio non supporté (mp3/ogg/wav)"@)
                } else {
                    r is Ok
                }
            } else {
                if image_type_spec(d@) is None {
                    r matches Err(e) && is_bad_request(e, "format d'image non supporté (png/gif/webp/jpeg)"@)
                } else {
                    r is Ok
                }
            },
        },
{
    let d = match data {
        None => return Err(AppError::bad_request("aucun fichier fourni")),
        Some(d) => d,
    };
    if d.len() == 0 {
        return Err(AppError::bad_request("fichier vide"));
    }
    match kind {
        UploadKind::EmojiImage => {
            if d.len() > MAX_EMOJI_SIZE {
                return Err(AppError::bad_request("image trop volumineuse (max 512 Kio)"));
            }
        },
        UploadKind::Image => {
            if d.len() > MAX_IMAGE_SIZE {
                return Err(AppError::bad_request("image trop volumineuse (max 2 Mio)"));
            }
        },
        UploadKind::Sound => {
            if d.len() > MAX_SOUND_SIZE {
                return Err(AppError::bad_request("son trop volumineux (max 1 Mio)"));
            }
        },
    }
    match kind {
        UploadKind::Sound => {
            if detect_audio_type(d).is_none() {
                return Err(AppError::bad_request("format audio non supporté (mp3/ogg/wav)"));
            }
        },
        _ => {
            if detect_image_type(d).is_none() {
                return Err(AppError::bad_request("format d'image non supporté (png/gif/webp/jpeg)"));
            }
        },
    }
    Ok(())
}

} // verus!
