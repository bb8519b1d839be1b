//! Attachments: the size of an upload streamed in chunks, what is stored of it, and how a
//! download is presented so that uploaded content never runs in the site's origin.

use vstd::prelude::*;
use crate::error::{AppError, is_bad_request};
use crate::numbers::{decimal_string_i64, signed_decimal_text};
use crate::text::{concat, starts_with_spec, str_eq, str_starts_with};
use crate::validate::{sanitize_filename, sanitize_filename_spec};

verus! {

/// Largest attachment, in bytes (1 GiB).
pub const MAX_ATTACHMENT_SIZE: usize = 1_073_741_824;

/// Counts one more chunk of `chunk_len` bytes of an upload of `size` bytes so far;
/// refused once the total passes 1 GiB (the partial file is then removed).
pub fn add_chunk(size: usize, chunk_len: usize) -> (r: Result<usize, AppError>)
    requires
        size <= MAX_ATTACHMENT_SIZE,
    ensures
        size + chunk_len <= MAX_ATTACHMENT_SIZE ==> r == Ok::<usize, AppError>((size + chunk_len) as usize),
        size + chunk_len > MAX_ATTACHMENT_SIZE ==> (r matches Err(e) && is_bad_request(
            e,
            "fichier trop volumineux (max 1 Go)"@,
        )),
{
    if chunk_len > MAX_ATTACHMENT_SIZE - size {
        return Err(AppError::bad_request("fichier trop volumineux (max 1 Go)"));
    }
    Ok(size + chunk_len)
}

/// Checks an upload once streamed: a file field must have come, and not be empty.
pub fn check_uploaded(wrote_file: bool, size: usize) -> (r: Result<(), AppError>)
    ensures
        !wrote_file ==> (r matches Err(e) && is_bad_request(e, "aucun fichier fourni"@)),
        wrote_file && size == 0 ==> (r matches Err(e) && is_bad_request(e, "fichier vide"@)),
        wrote_file && size > 0 ==> r is Ok,
{
    if !wrote_file {
        return Err(AppError::bad_request("aucun fichier fourni"));
    }
    if size == 0 {
        return Err(AppError::bad_request("fichier vide"));
    }
    Ok(())
}

/// The content type stored: the one sent, else `application/octet-stream`.
pub fn stored_content_type(sent: Option<String>) -> (r: String)
    ensures
        r@ == (match sent {
            Some(s) => s@,
            None => "application/octet-stream"@,
        }),
{
    match sent {
        Some(s) => s,
        None => "application/octet-stream".to_owned(),
    }
}

/// Download path of attachment `id` under its display name.
pub fn attachment_url(id: i64, filename: &str) -> (r: String)
    ensures
        r@ == "/attachments/"@ + signed_decimal_text(id as int) + "/"@ + filename@,
{
    let n = decimal_string_i64(id);
    let a = concat("/attachments/", n.as_str());
    let b = concat(a.as_str(), "/");
    concat(b.as_str(), filename)
}

/// Content types shown in the page: images, sounds, videos and plain text. Anything else
/// is only ever downloaded.
pub open spec fn inline_ok(ctype: Seq<char>) -> bool {
    starts_with_spec(ctype, "image/"@) || starts_with_spec(ctype, "audio/"@) || starts_with_spec(
        ctype,
        "video/"@,
    ) || ctype == "text/plain"@
}

/// How a download is presented: `inline` for the safe media types, `attachment` for
/// everything else.
pub fn disposition(ctype: &str) -> (r: &'static str)
    ensures
        r@ == (if inline_ok(ctype@) { "inline"@ } else { "attachment"@ }),
{
    if str_starts_with(ctype, "image/") || str_starts_with(ctype, "audio/") || str_starts_with(ctype, "video/")
        || str_eq(ctype, "text/plain") {
        "inline"
    } else {
        "attachment"
    }
}

/// The `Content-Disposition` header of a download.
pub fn content_disposition(ctype: &str, stored_name: &str) -> (r: String)
    ensures
        r@ == (if inline_ok(ctype@) { "inline"@ } else { "attachment"@ }) + "; filename=\""@ + stored_name@
            + "\""@,
{
    let d = disposition(ctype);
    let a = concat(d, "; filename=\"");
    let b = concat(a.as_str(), stored_name);
    concat(b.as_str(), "\"")
}

/// What an upload stores: the cleaned display name and the content type.
pub fn stored_names(filename: Option<String>, content_type: Option<String>) -> (r: (String, String))
    ensures
        r.0@ == sanitize_filename_spec(match filename {
            Some(f) => f@,
            None => Seq::<char>::empty(),
        }),
        r.1@ == (match content_type {
            Some(s) => s@,
            None => "application/octet-stream"@,
        }),
{
    let name = match filename {
        Some(f) => sanitize_filename(f.as_str()),
        None => {
            proof {
                reveal_strlit("");
            }
            sanitize_filename("")
        },
    };
    (name, stored_content_type(content_type))
}

} // verus!
