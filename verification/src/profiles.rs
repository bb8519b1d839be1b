//! A user's public profile and client settings: the fields a profile update accepts, the
//! public key of end-to-end encrypted conversations, and the size of the settings blob.

use vstd::prelude::*;
use crate::auth::utf8_len;
use crate::error::{AppError, is_bad_request, is_too_many};
use crate::text::{byte_len, trim, trim_spec};
use crate::validate::{text_field, text_field_spec};

verus! {

/// Largest settings blob, in bytes (64 KiB).
pub const MAX_SETTINGS_BYTES: usize = 65_536;
/// Largest public key, in bytes.
pub const MAX_PUBLIC_KEY_LEN: usize = 1024;

/// The editable fields of a profile.
pub struct ProfileFields {
    pub display_name: Option<String>,
    pub bio: Option<String>,
    pub pronouns: Option<String>,
    pub avatar_id: Option<String>,
    pub banner_id: Option<String>,
    pub accent_color: Option<u32>,
}

/// A profile update: each text field absent keeps its value, blank clears it.
pub struct ProfileRequest {
    pub display_name: Option<String>,
    pub bio: Option<String>,
    pub pronouns: Option<String>,
    pub avatar_id: Option<String>,
    pub banner_id: Option<String>,
    pub accent_color: Option<u32>,
}

/// A text field sent fits within `max` characters once trimmed (an absent one always fits).
pub open spec fn fits(new: Option<String>, max: int) -> bool {
    match new {
        Some(s) => trim_spec(s@).len() <= max,
        None => true,
    }
}

/// The error of an outcome, for the field checks.
pub open spec fn err_of(r: Result<ProfileFields, AppError>) -> Result<Option<String>, AppError> {
    match r {
        Ok(_) => Ok(None),
        Err(e) => Err(e),
    }
}

/// Applies a profile update to the current profile, refused beyond ten updates per ten
/// minutes (`allowed` is the answer of the update counter). The fields are checked in
/// order: display name (32), bio (190), pronouns (40), avatar and banner (256), then the
/// accent colour (at most `0xFFFFFF`).
pub fn plan_profile_update(allowed: bool, cur: ProfileFields, req: ProfileRequest) -> (r: Result<ProfileFields, AppError>)
    ensures
        !allowed ==> (r matches Err(e) && is_too_many(
            e,
            "trop de modifications du profil — réessaie dans quelques minutes"@,
        )),
        r matches Ok(p) ==> {
            &&& allowed
            &&& text_field_spec(req.display_name, cur.display_name, 32, "nom affiché"@, Ok(p.display_name))
            &&& text_field_spec(req.bio, cur.bio, 190, "bio"@, Ok(p.bio))
            &&& text_field_spec(req.pronouns, cur.pronouns, 40, "pronoms"@, Ok(p.pronouns))
            &&& text_field_spec(req.avatar_id, cur.avatar_id, 256, "avatar"@, Ok(p.avatar_id))
            &&& text_field_spec(req.banner_id, cur.banner_id, 256, "bannière"@, Ok(p.banner_id))
            &&& p.accent_color == (match req.accent_color {
                Some(c) => Some(c),
                None => cur.accent_color,
            })
            &&& (req.accent_color matches Some(c) ==> c <= 0xFF_FFFF)
        },
        allowed && !fits(req.display_name, 32) ==> text_field_spec(
            req.display_name,
            cur.display_name,
            32,
            "nom affiché"@,
            err_of(r),
        ),
        allowed && fits(req.display_name, 32) && !fits(req.bio, 190) ==> text_field_spec(
            req.bio,
            cur.bio,
            190,
            "bio"@,
            err_of(r),
        ),
        allowed && fits(req.display_name, 32) && fits(req.bio, 190) && !fits(req.pronouns, 40)
            ==> text_field_spec(req.pronouns, cur.pronouns, 40, "pronoms"@, err_of(r)),
        allowed && fits(req.display_name, 32) && fits(req.bio, 190) && fits(req.pronouns, 40) && !fits(
            req.avatar_id,
            256,
        ) ==> text_field_spec(req.avatar_id, cur.avatar_id, 256, "avatar"@, err_of(r)),
        allowed && fits(req.display_name, 32) && fits(req.bio, 190) && fits(req.pronouns, 40) && fits(
            req.avatar_id,
            256,
        ) && !fits(req.banner_id, 256) ==> text_field_spec(
            req.banner_id,
            cur.banner_id,
            256,
            "bannière"@,
            err_of(r),
        ),
        allowed && fits(req.display_name, 32) && fits(req.bio, 190) && fits(req.pronouns, 40) && fits(
            req.avatar_id,
            256,
        ) && fits(req.banner_id, 256) && (req.accent_color matches Some(c) && c > 0xFF_FFFF) ==> (r matches Err(
            e,
        ) && is_bad_request(e, "couleur d'accent invalide (0..=0xFFFFFF)"@)),
        allowed && fits(req.display_name, 32) && fits(req.bio, 190) && fits(req.pronouns, 40) && fits(
            req.avatar_id,
            256,
        ) && fits(req.banner_id, 256) && !(req.accent_color matches Some(c) && c > 0xFF_FFFF) ==> r is Ok,
{
    if !allowed {
        return Err(AppError::too_many("trop de modifications du profil — réessaie dans quelques minutes"));
    }
    let display_name = match text_field(&req.display_name, cur.display_name, 32, "nom affiché") {
        Ok(v) => v,
        Err(e) => return Err(e),
    };
    let bio = match text_field(&req.bio, cur.bio, 190, "bio") {
        Ok(v) => v,
        Err(e) => return Err(e),
    };
    let pronouns = match text_field(&req.pronouns, cur.pronouns, 40, "pronoms") {
        Ok(v) => v,
        Err(e) => return Err(e),
    };
    let avatar_id = match text_field(&req.avatar_id, cur.avatar_id, 256, "avatar") {
        Ok(v) => v,
        Err(e) => return Err(e),
    };
    let banner_id = match text_field(&req.banner_id, cur.banner_id, 256, "bannière") {
        Ok(v) => v,
        Err(e) => return Err(e),
    };
    let accent_color = match req.accent_color {
        Some(c) => {
            if c > 0xFF_FFFF {
                return Err(AppError::bad_request("couleur d'accent invalide (0..=0xFFFFFF)"));
            }
            Some(c)
        },
        None => cur.accent_color,
    };
    Ok(ProfileFields { display_name, bio, pronouns, avatar_id, banner_id, accent_color })
}

/// A public key of end-to-end encrypted conversations: trimmed, 1 to 1024 bytes.
pub fn check_public_key(key: &str) -> (r: Result<String, AppError>)
    ensures
        1 <= utf8_len(trim_spec(key@)) <= 1024 ==> (r matches Ok(k) && k@ == trim_spec(key@)),
        !(1 <= utf8_len(trim_spec(key@)) <= 1024) ==> (r matches Err(e) && is_bad_request(
            e,
            "clé publique invalide"@,
        )),
{
    let t = trim(key);
    let n = byte_len(t.as_str());
    if n == 0 || n > MAX_PUBLIC_KEY_LEN {
        return Err(AppError::bad_request("clé publique invalide"));
    }
    Ok(t)
}

/// Client settings must be a JSON object of at most 64 KiB once written out.
pub fn check_settings(is_object: bool, written_len: usize) -> (r: Result<(), AppError>)
    ensures
        !is_object ==> (r matches Err(e) && is_bad_request(e, "les réglages doivent être un objet JSON"@)),
        is_object && written_len > 65_536 ==> (r matches Err(e) && is_bad_request(
            e,
            "réglages trop volumineux (max 64 Ko)"@,
        )),
        is_object && written_len <= 65_536 ==> r is Ok,
{
    if !is_object {
        return Err(AppError::bad_request("les réglages doivent être un objet JSON"));
    }
    if written_len > MAX_SETTINGS_BYTES {
        return Err(AppError::bad_request("réglages trop volumineux (max 64 Ko)"));
    }
    Ok(())
}

} // verus!
