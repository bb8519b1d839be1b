//! Validation of user-supplied names, texts and file contents.

use vstd::prelude::*;
use vstd::string::StringSliceAdditionalSpecFns;
use crate::error::{AppError, is_bad_request};
use crate::numbers::{decimal_string, decimal_text};
use crate::text::{
    chars_of, char_count, contains_spec, is_ascii_alphanumeric, is_ascii_alphanumeric_spec,
    is_control, is_control_spec, lowercase, str_contains, str_eq, string_from_chars, to_lowercase,
    trim, trim_bounds, trim_spec, string_from_range, concat,
};

verus! {

// ───────────────────────────── File names ─────────────────────────────

/// Characters kept in a displayed file name.
pub open spec fn filename_char_ok(c: char) -> bool {
    !is_control_spec(c) && c != '"' && c != '\\' && c != '/'
}

/// The kept characters of `s`, at most `max` of them.
pub open spec fn filtered_prefix(s: Seq<char>, max: nat) -> Seq<char>
    decreases s.len(),
{
    if s.len() == 0 {
        Seq::empty()
    } else {
        let rest = filtered_prefix(s.drop_last(), max);
        if filename_char_ok(s.last()) && rest.len() < max {
            rest.push(s.last())
        } else {
            rest
        }
    }
}

/// Display name of an uploaded file: controls, quotes, backslashes and slashes removed,
/// at most 200 characters, trimmed, and `fichier` when nothing is left.
pub open spec fn sanitize_filename_spec(s: Seq<char>) -> Seq<char> {
    let t = trim_spec(filtered_prefix(s, 200));
    if t.len() == 0 {
        "fichier"@
    } else {
        t
    }
}

/// Cleans a file name for display (see [`sanitize_filename_spec`]).
pub fn sanitize_filename(name: &str) -> (r: String)
    ensures
        r@ == sanitize_filename_spec(name@),
{
    let v = chars_of(name);
    let mut kept: Vec<char> = Vec::new();
    let mut i: usize = 0;
    while i < v.len()
        invariant
            0 <= i <= v.len(),
            v@ == name@,
            kept@ == filtered_prefix(v@.take(i as int), 200),
            kept@.len() <= 200,
        decreases v.len() - i,
    {
        let c = v[i];
        assert(v@.take(i + 1).drop_last() == v@.take(i as int));
        if !is_control(c) && c != '"' && c != '\\' && c != '/' && kept.len() < 200 {
            kept.push(c);
        }
        i = i + 1;
    }
    assert(v@.take(v.len() as int) == v@);
    let (a, b) = trim_bounds(&kept);
    if a == b {
        "fichier".to_owned()
    } else {
        string_from_range(&kept, a, b)
    }
}

// ───────────────────────────── Magic numbers ─────────────────────────────

/// `b` starts with the bytes `p`.
pub open spec fn bytes_start_with(b: Seq<u8>, p: Seq<u8>) -> bool {
    p.len() <= b.len() && b.subrange(0, p.len() as int) == p
}

/// Whether `b` starts with `p`.
pub fn starts_with_bytes(b: &[u8], p: &[u8]) -> (r: bool)
    ensures
        r == bytes_start_with(b@, p@),
{
    if p.len() > b.len() {
        return false;
    }
    let mut k: usize = 0;
    while k < p.len()
        invariant
            p@.len() <= b@.len(),
            0 <= k <= p@.len(),
            forall|q: int| 0 <= q < k ==> b@[q] == p@[q],
        decreases p.len() - k,
    {
        if b[k] != p[k] {
            assert(b@.subrange(0, p@.len() as int)[k as int] != p@[k as int]);
            return false;
        }
        k = k + 1;
    }
    assert(b@.subrange(0, p@.len() as int) =~= p@);
    true
}

/// Image type of a file, told by its first bytes: PNG, GIF, WEBP or JPEG.
pub open spec fn image_type_spec(b: Seq<u8>) -> Option<Seq<char>> {
    if bytes_start_with(b, seq![0x89u8, 0x50u8, 0x4Eu8, 0x47u8]) {
        Some("image/png"@)
    } else if bytes_start_with(b, seq![0x47u8, 0x49u8, 0x46u8, 0x38u8]) {
        Some("image/gif"@)
    } else if b.len() >= 12 && b.subrange(0, 4) == seq![0x52u8, 0x49u8, 0x46u8, 0x46u8]
        && b.subrange(8, 12) == seq![0x57u8, 0x45u8, 0x42u8, 0x50u8] {
        Some("image/webp"@)
    } else if bytes_start_with(b, seq![0xFFu8, 0xD8u8, 0xFFu8]) {
        Some("image/jpeg"@)
    } else {
        None
    }
}

/// View of an optional static string.
pub open spec fn opt_str_view(s: Option<&'static str>) -> Option<Seq<char>> {
    match s {
        Some(t) => Some(t@),
        None => None,
    }
}

/// Whether `b[at..at + 4]` equals `p`.
fn four_bytes_at(b: &[u8], at: usize, p: [u8; 4]) -> (r: bool)
    requires
        at + 4 <= b@.len(),
    ensures
        r == (b@.subrange(at as int, at + 4) == p@),
{
    let r = b[at] == p[0] && b[at + 1] == p[1] && b[at + 2] == p[2] && b[at + 3] == p[3];
    if r {
        assert(b@.subrange(at as int, at + 4) =~= p@);
    } else {
        assert(b@.subrange(at as int, at + 4) != p@) by {
            if b@.subrange(at as int, at + 4) == p@ {
                assert(b@.subrange(at as int, at + 4)[0] == b@[at as int]);
                assert(b@.subrange(at as int, at + 4)[1] == b@[at + 1]);
                assert(b@.subrange(at as int, at + 4)[2] == b@[at + 2]);
                assert(b@.subrange(at as int, at + 4)[3] == b@[at + 3]);
            }
        }
    }
    r
}

/// MIME type of an image file told by its magic number (see [`image_type_spec`]).
pub fn detect_image_type(bytes: &[u8]) -> (r: Option<&'static str>)
    ensures
        opt_str_view(r) == image_type_spec(bytes@),
{
    let png: [u8; 4] = [0x89, 0x50, 0x4E, 0x47];
    let gif: [u8; 4] = [0x47, 0x49, 0x46, 0x38];
    let riff: [u8; 4] = [0x52, 0x49, 0x46, 0x46];
    let webp: [u8; 4] = [0x57, 0x45, 0x42, 0x50];
    let jpeg: [u8; 3] = [0xFF, 0xD8, 0xFF];
    assert(png@ =~= seq![0x89u8, 0x50u8, 0x4Eu8, 0x47u8]);
    assert(gif@ =~= seq![0x47u8, 0x49u8, 0x46u8, 0x38u8]);
    assert(riff@ =~= seq![0x52u8, 0x49u8, 0x46u8, 0x46u8]);
    assert(webp@ =~= seq![0x57u8, 0x45u8, 0x42u8, 0x50u8]);
    assert(jpeg@ =~= seq![0xFFu8, 0xD8u8, 0xFFu8]);
    if starts_with_bytes(bytes, png.as_slice()) {
        Some("image/png")
    } else if starts_with_bytes(bytes, gif.as_slice()) {
        Some("image/gif")
    } else if bytes.len() >= 12 && four_bytes_at(bytes, 0, riff) && four_bytes_at(bytes, 8, webp) {
        Some("image/webp")
    } else if starts_with_bytes(bytes, jpeg.as_slice()) {
        Some("image/jpeg")
    } else {
        None
    }
}

/// Audio type of a file, told by its first bytes: MP3 (ID3 tag or frame sync), OGG or WAV.
pub open spec fn audio_type_spec(b: Seq<u8>) -> Option<Seq<char>> {
    if bytes_start_with(b, seq![0x49u8, 0x44u8, 0x33u8]) || (b.len() >= 2 && b[0] == 0xFFu8 && (
    b[1] & 0xE0u8) == 0xE0u8) {
        Some("audio/mpeg"@)
    } else if bytes_start_with(b, seq![0x4Fu8, 0x67u8, 0x67u8, 0x53u8]) {
        Some("audio/ogg"@)
    } else if b.len() >= 12 && b.subrange(0, 4) == seq![0x52u8, 0x49u8, 0x46u8, 0x46u8]
        && b.subrange(8, 12) == seq![0x57u8, 0x41u8, 0x56u8, 0x45u8] {
        Some("audio/wav"@)
    } else {
        None
    }
}

/// MIME type of an audio file told by its magic number (see [`audio_type_spec`]).
pub fn detect_audio_type(bytes: &[u8]) -> (r: Option<&'static str>)
    ensures
        opt_str_view(r) == audio_type_spec(bytes@),
{
    let id3: [u8; 3] = [0x49, 0x44, 0x33];
    let ogg: [u8; 4] = [0x4F, 0x67, 0x67, 0x53];
    let riff: [u8; 4] = [0x52, 0x49, 0x46, 0x46];
    let wave: [u8; 4] = [0x57, 0x41, 0x56, 0x45];
    assert(id3@ =~= seq![0x49u8, 0x44u8, 0x33u8]);
    assert(ogg@ =~= seq![0x4Fu8, 0x67u8, 0x67u8, 0x53u8]);
    assert(riff@ =~= seq![0x52u8, 0x49u8, 0x46u8, 0x46u8]);
    assert(wave@ =~= seq![0x57u8, 0x41u8, 0x56u8, 0x45u8]);
    if starts_with_bytes(bytes, id3.as_slice()) || (bytes.len() >= 2 && bytes[0] == 0xFF && (
    bytes[1] & 0xE0) == 0xE0) {
        Some("audio/mpeg")
    } else if starts_with_bytes(bytes, ogg.as_slice()) {
        Some("audio/ogg")
    } else if bytes.len() >= 12 && four_bytes_at(bytes, 0, riff) && four_bytes_at(bytes, 8, wave) {
        Some("audio/wav")
    } else {
        None
    }
}

/// `Content-Type` of a served image: one of the four known image types, or
/// `application/octet-stream`.
pub fn image_content_type(ctype: &str) -> (r: &'static str)
    ensures
        r@ == (if ctype@ == "image/png"@ || ctype@ == "image/gif"@ || ctype@ == "image/webp"@
            || ctype@ == "image/jpeg"@ {
            ctype@
        } else {
            "application/octet-stream"@
        }),
{
    if str_eq(ctype, "image/png") {
        "image/png"
    } else if str_eq(ctype, "image/gif") {
        "image/gif"
    } else if str_eq(ctype, "image/webp") {
        "image/webp"
    } else if str_eq(ctype, "image/jpeg") {
        "image/jpeg"
    } else {
        "application/octet-stream"
    }
}

// ───────────────────────────── Small enumerations ─────────────────────────────

/// Known auto-moderation trigger types.
pub fn valid_trigger(t: &str) -> (r: bool)
    ensures
        r == (t@ == "keyword"@ || t@ == "mention_spam"@),
{
    str_eq(t, "keyword") || str_eq(t, "mention_spam")
}

/// Known auto-moderation actions.
pub fn valid_action(a: &str) -> (r: bool)
    ensures
        r == (a@ == "block"@ || a@ == "alert"@),
{
    str_eq(a, "block") || str_eq(a, "alert")
}

/// Notification level allowed for a scope: a channel (`1`) accepts `0..=3` (3 = inherit
/// from the guild), a guild `0..=2`.
pub fn valid_level(scope_type: u8, level: u8) -> (r: bool)
    ensures
        r == (if scope_type == 1 {
            level <= 3
        } else {
            level <= 2
        }),
{
    match scope_type {
        1 => level <= 3,
        _ => level <= 2,
    }
}

/// Role color style restricted to a known list (`solid` otherwise).
pub fn sanitize_color_style(s: Option<&str>) -> (r: &'static str)
    ensures
        r@ == match s {
            Some(t) => if t@ == "gradient"@ || t@ == "neon"@ || t@ == "wave"@ {
                t@
            } else {
                "solid"@
            },
            None => "solid"@,
        },
{
    match s {
        Some(t) => if str_eq(t, "gradient") {
            "gradient"
        } else if str_eq(t, "neon") {
            "neon"
        } else if str_eq(t, "wave") {
            "wave"
        } else {
            "solid"
        },
        None => "solid",
    }
}

// ───────────────────────────── Names ─────────────────────────────

/// Every character of `s` is an ASCII letter or digit, or one of `extra`.
pub open spec fn all_chars_in(s: Seq<char>, extra: Seq<char>) -> bool {
    forall|i: int| 0 <= i < s.len() ==> is_ascii_alphanumeric_spec(#[trigger] s[i]) || extra.contains(
        s[i],
    )
}

/// Whether every character of `s` is an ASCII letter or digit, or one of `extra`.
pub fn chars_all_in(s: &Vec<char>, extra: &Vec<char>) -> (r: bool)
    ensures
        r == all_chars_in(s@, extra@),
{
    let mut i: usize = 0;
    while i < s.len()
        invariant
            0 <= i <= s.len(),
            forall|j: int| 0 <= j < i ==> is_ascii_alphanumeric_spec(#[trigger] s@[j]) || extra@.contains(
                s@[j],
            ),
        decreases s.len() - i,
    {
        let c = s[i];
        let mut found = false;
        let mut k: usize = 0;
        while k < extra.len()
            invariant
                0 <= k <= extra.len(),
                found == exists|q: int| 0 <= q < k && extra@[q] == c,
            decreases extra.len() - k,
        {
            if extra[k] == c {
                found = true;
            }
            k = k + 1;
        }
        if !is_ascii_alphanumeric(c) && !found {
            return false;
        }
        i = i + 1;
    }
    true
}

/// Outcome of [`validate_emoji_name`]: 2 to 32 bytes, letters, digits and `_` only.
pub open spec fn validate_emoji_name_spec(name: &str, r: Result<(), AppError>) -> bool {
    if !(2 <= name.spec_bytes().len() <= 32) {
        r is Err && is_bad_request(
            r->Err_0,
            "le nom de l'emoji doit faire entre 2 et 32 caractères"@,
        )
    } else if !all_chars_in(name@, seq!['_']) {
        r is Err && is_bad_request(
            r->Err_0,
            "le nom de l'emoji ne peut contenir que des lettres, chiffres et tirets bas"@,
        )
    } else {
        r is Ok
    }
}

/// Validates an emoji name.
pub fn validate_emoji_name(name: &str) -> (r: Result<(), AppError>)
    ensures
        validate_emoji_name_spec(name, r),
{
    let len = name.as_bytes().len();
    if !(2 <= len && len <= 32) {
        return Err(AppError::bad_request("le nom de l'emoji doit faire entre 2 et 32 caractères"));
    }
    let v = chars_of(name);
    let extra = vec!['_'];
    assert(extra@ =~= seq!['_']);
    let ok = chars_all_in(&v, &extra);
    assert(v@ == name@);
    assert(ok == all_chars_in(name@, seq!['_']));
    if !ok {
        return Err(
            AppError::bad_request(
                "le nom de l'emoji ne peut contenir que des lettres, chiffres et tirets bas",
            ),
        );
    }
    Ok(())
}

/// Outcome of [`validate_event_name`]: the trimmed name, 1 to 100 characters.
pub open spec fn validate_event_name_spec(name: Seq<char>, r: Result<String, AppError>) -> bool {
    let t = trim_spec(name);
    if 1 <= t.len() <= 100 {
        r is Ok && r->Ok_0@ == t
    } else {
        r is Err && is_bad_request(
            r->Err_0,
            "le nom de l'événement doit faire entre 1 et 100 caractères"@,
        )
    }
}

/// Validates a scheduled event name; answers it trimmed.
pub fn validate_event_name(name: &str) -> (r: Result<String, AppError>)
    ensures
        validate_event_name_spec(name@, r),
{
    let t = trim(name);
    let n = char_count(t.as_str());
    if !(1 <= n && n <= 100) {
        return Err(
            AppError::bad_request("le nom de l'événement doit faire entre 1 et 100 caractères"),
        );
    }
    Ok(t)
}

/// Outcome of [`validate_webhook_name`]: trimmed, 1 to 80 characters, and not containing
/// `clyde` or `discord` in any case.
pub open spec fn validate_webhook_name_spec(name: Seq<char>, r: Result<String, AppError>) -> bool {
    let t = trim_spec(name);
    if t.len() == 0 || t.len() > 80 {
        r is Err && is_bad_request(r->Err_0, "nom de webhook invalide (1 à 80 caractères)"@)
    } else if contains_spec(lowercase(t), "clyde"@) || contains_spec(lowercase(t), "discord"@) {
        r is Err && is_bad_request(r->Err_0, "nom de webhook réservé"@)
    } else {
        r is Ok && r->Ok_0@ == t
    }
}

/// Validates a webhook name (or display-name override); answers it trimmed.
pub fn validate_webhook_name(name: &str) -> (r: Result<String, AppError>)
    ensures
        validate_webhook_name_spec(name@, r),
{
    let n = trim(name);
    let count = char_count(n.as_str());
    if count == 0 || count > 80 {
        return Err(AppError::bad_request("nom de webhook invalide (1 à 80 caractères)"));
    }
    let lower = to_lowercase(n.as_str());
    if str_contains(lower.as_str(), "clyde") || str_contains(lower.as_str(), "discord") {
        return Err(AppError::bad_request("nom de webhook réservé"));
    }
    Ok(n)
}

/// Outcome of [`validate_topic`]: at most 1024 characters.
pub fn validate_topic(topic: &Option<String>) -> (r: Result<(), AppError>)
    ensures
        match topic {
            Some(t) => if t@.len() > 1024 {
                r is Err && is_bad_request(r->Err_0, "sujet trop long (max 1024)"@)
            } else {
                r is Ok
            },
            None => r is Ok,
        },
{
    match topic {
        Some(t) => {
            if char_count(t.as_str()) > 1024 {
                return Err(AppError::bad_request("sujet trop long (max 1024)"));
            }
            Ok(())
        },
        None => Ok(()),
    }
}

/// Outcome of [`validate_guild_name`]: trimmed, 1 to 100 characters.
pub open spec fn validate_guild_name_spec(name: Seq<char>, r: Result<String, AppError>) -> bool {
    let t = trim_spec(name);
    if t.len() == 0 || t.len() > 100 {
        r is Err && is_bad_request(r->Err_0, "nom de guilde invalide (1 à 100 caractères)"@)
    } else {
        r is Ok && r->Ok_0@ == t
    }
}

/// Validates a guild name; answers it trimmed.
pub fn validate_guild_name(name: &str) -> (r: Result<String, AppError>)
    ensures
        validate_guild_name_spec(name@, r),
{
    let t = trim(name);
    let n = char_count(t.as_str());
    if n == 0 || n > 100 {
        return Err(AppError::bad_request("nom de guilde invalide (1 à 100 caractères)"));
    }
    Ok(t)
}

/// Message of a text field over its length limit: `<label> trop long (max <max>)`.
pub open spec fn too_long_message(label: Seq<char>, max: nat) -> Seq<char> {
    label + " trop long (max "@ + decimal_text(max) + ")"@
}

/// View of an optional string.
pub open spec fn opt_string_view(s: Option<String>) -> Option<Seq<char>> {
    match s {
        Some(t) => Some(t@),
        None => None,
    }
}

/// Outcome of [`text_field`].
pub open spec fn text_field_spec(
    new: Option<String>,
    current: Option<String>,
    max: usize,
    label: Seq<char>,
    r: Result<Option<String>, AppError>,
) -> bool {
    match new {
        None => r is Ok && opt_string_view(r->Ok_0) == opt_string_view(current),
        Some(s) => {
            let t = trim_spec(s@);
            if t.len() == 0 {
                r is Ok && r->Ok_0 is None
            } else if t.len() > max {
                r is Err && is_bad_request(r->Err_0, too_long_message(label, max as nat))
            } else {
                r is Ok && opt_string_view(r->Ok_0) == Some(t)
            }
        },
    }
}

/// Optional profile text field: absent keeps `current`, blank clears it, otherwise the
/// trimmed text, at most `max` characters.
pub fn text_field(new: &Option<String>, current: Option<String>, max: usize, label: &str) -> (r:
    Result<Option<String>, AppError>)
    ensures
        text_field_spec(*new, current, max, label@, r),
{
    match new {
        None => Ok(current),
        Some(s) => {
            let t = trim(s.as_str());
            let n = char_count(t.as_str());
            if n == 0 {
                return Ok(None);
            }
            if n > max {
                let m1 = concat(label, " trop long (max ");
                let d = decimal_string(max as u64);
                let m2 = concat(m1.as_str(), d.as_str());
                let m3 = concat(m2.as_str(), ")");
                return Err(AppError::bad_request(m3.as_str()));
            }
            Ok(Some(t))
        },
    }
}

} // verus!
