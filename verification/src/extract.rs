//! What a request carries about its sender: the client address used as rate-limit key,
//! the bearer token and the user id in a verified token.

use vstd::prelude::*;
use crate::error::{AppError, is_unauthorized};
use crate::numbers::{parse_u64, parse_u64_spec};
use crate::text::{chars_of, string_from_range, trim, trim_spec, char_count};

verus! {

/// The characters of `s` before its first `sep` (all of them when there is none).
pub open spec fn first_field(s: Seq<char>, sep: char) -> Seq<char>
    decreases s.len(),
{
    if s.len() == 0 || s[0] == sep {
        Seq::empty()
    } else {
        seq![s[0]] + first_field(s.drop_first(), sep)
    }
}

proof fn lemma_first_field(s: Seq<char>, sep: char, k: int)
    requires
        0 <= k <= s.len(),
        forall|j: int| 0 <= j < k ==> s[j] != sep,
        k == s.len() || s[k] == sep,
    ensures
        first_field(s, sep) == s.take(k),
    decreases s.len(),
{
    if k == 0 {
        assert(s.take(0) =~= Seq::<char>::empty());
    } else {
        let t = s.drop_first();
        assert forall|j: int| 0 <= j < k - 1 implies t[j] != sep by {
            assert(t[j] == s[j + 1]);
        }
        if k < s.len() {
            assert(t[k - 1] == s[k]);
        }
        lemma_first_field(t, sep, k - 1);
        assert(s.take(k) =~= seq![s[0]] + t.take(k - 1));
    }
}

/// The characters of `s` before its first `sep`.
pub fn first_field_of(s: &str, sep: char) -> (r: String)
    ensures
        r@ == first_field(s@, sep),
{
    let v = chars_of(s);
    let mut k: usize = 0;
    while k < v.len() && v[k] != sep
        invariant
            0 <= k <= v@.len(),
            forall|j: int| 0 <= j < k ==> v@[j] != sep,
        decreases v.len() - k,
    {
        k = k + 1;
    }
    proof {
        lemma_first_field(v@, sep, k as int);
        assert(v@.subrange(0, k as int) =~= v@.take(k as int));
    }
    string_from_range(&v, 0, k)
}

/// The client address used as the rate-limit key of unauthenticated routes.
pub struct ClientIp(pub String);

/// The address chosen from what the request carries: behind a trusted proxy the first
/// entry of `X-Forwarded-For`, trimmed, when it is not empty; else the peer address of
/// the connection; else `unknown`.
pub open spec fn client_ip_spec(trust_proxy: bool, forwarded_for: Option<Seq<char>>, peer: Option<Seq<char>>) -> Seq<char> {
    let forwarded = match forwarded_for {
        Some(x) => trim_spec(first_field(x, ',')),
        None => Seq::empty(),
    };
    if trust_proxy && forwarded_for is Some && forwarded.len() > 0 {
        forwarded
    } else {
        match peer {
            Some(p) => p,
            None => "unknown"@,
        }
    }
}

/// View of an optional string.
pub open spec fn opt_string(s: Option<String>) -> Option<Seq<char>> {
    match s {
        Some(v) => Some(v@),
        None => None,
    }
}

/// View of an optional string slice.
pub open spec fn opt_str(s: Option<&str>) -> Option<Seq<char>> {
    match s {
        Some(v) => Some(v@),
        None => None,
    }
}

impl ClientIp {
    /// Chooses the client address. `X-Forwarded-For` is believed only behind a proxy the
    /// instance trusts, since a direct client could otherwise send a new address with
    /// every request and escape the per-address limits.
    pub fn resolve(trust_proxy: bool, forwarded_for: Option<&str>, peer: Option<String>) -> (ip: ClientIp)
        ensures
            ip.0@ == client_ip_spec(trust_proxy, opt_str(forwarded_for), opt_string(peer)),
    {
        if trust_proxy {
            if let Some(x) = forwarded_for {
                let first = first_field_of(x, ',');
                let t = trim(first.as_str());
                if char_count(t.as_str()) > 0 {
                    return ClientIp(t);
                }
            }
        }
        match peer {
            Some(p) => ClientIp(p),
            None => ClientIp("unknown".to_owned()),
        }
    }
}

/// The token of an `Authorization` header: what follows `Bearer `.
pub fn bearer_token(header: Option<&str>) -> (r: Result<String, AppError>)
    ensures
        match header {
            None => r matches Err(e) && is_unauthorized(e, "jeton d'autorisation manquant"@),
            Some(h) => {
                if h@.len() >= 7 && h@.take(7) == "Bearer "@ {
                    r matches Ok(t) && t@ == h@.skip(7)
                } else {
                    r matches Err(e) && is_unauthorized(e, "schéma d'autorisation invalide"@)
                }
            },
        },
{
    match header {
        None => Err(AppError::unauthorized("jeton d'autorisation manquant")),
        Some(h) => {
            let v = chars_of(h);
            let p = chars_of("Bearer ");
            proof {
                reveal_strlit("Bearer ");
            }
            if v.len() >= 7 && crate::text::chars_occur_at(&v, &p, 0) {
                proof {
                    assert(v@.subrange(0, 7) =~= v@.take(7));
                    assert(v@.subrange(7, v@.len() as int) =~= v@.skip(7));
                }
                Ok(string_from_range(&v, 7, v.len()))
            } else {
                proof {
                    if v@.len() >= 7 && v@.take(7) == "Bearer "@ {
                        assert(crate::text::occurs_at(v@, p@, 0)) by {
                            assert(v@.subrange(0, 7) =~= v@.take(7));
                        }
                    }
                }
                Err(AppError::unauthorized("schéma d'autorisation invalide"))
            }
        },
    }
}

/// The user id that a verified token names in its subject, a decimal `u64`.
pub fn subject_id(sub: &str) -> (r: Result<u64, AppError>)
    ensures
        match parse_u64_spec(sub@) {
            Some(n) => r == Ok::<u64, AppError>(n),
            None => r matches Err(e) && is_unauthorized(e, "sujet de jeton invalide"@),
        },
{
    match parse_u64(sub) {
        Some(n) => Ok(n),
        None => Err(AppError::unauthorized("sujet de jeton invalide")),
    }
}

} // verus!
