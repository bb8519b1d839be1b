//! Addressing the media node (SFU): the host and port that its base URL names.

use vstd::prelude::*;
use crate::extract::{first_field, first_field_of};
use crate::numbers::{parse_u16, parse_u16_spec};
use crate::text::{chars_of, starts_with_spec, str_starts_with, string_from_range};

verus! {

/// `base` without a leading `http://` or `https://`.
pub open spec fn without_scheme(base: Seq<char>) -> Seq<char> {
    if starts_with_spec(base, "http://"@) {
        base.skip(7)
    } else if starts_with_spec(base, "https://"@) {
        base.skip(8)
    } else {
        base
    }
}

/// Index of the last `c` in `s`, or `-1`.
pub open spec fn last_index(s: Seq<char>, c: char) -> int
    decreases s.len(),
{
    if s.len() == 0 {
        -1
    } else if s.last() == c {
        s.len() - 1
    } else {
        last_index(s.drop_last(), c)
    }
}

proof fn lemma_last_index(s: Seq<char>, c: char, k: int)
    requires
        0 <= k <= s.len(),
        forall|j: int| k <= j < s.len() ==> s[j] != c,
        k == 0 || s[k - 1] == c,
    ensures
        last_index(s, c) == k - 1,
    decreases s.len(),
{
    if s.len() > k {
        let t = s.drop_last();
        assert forall|j: int| k <= j < t.len() implies t[j] != c by {
            assert(t[j] == s[j]);
        }
        if k > 0 {
            assert(t[k - 1] == s[k - 1]);
        }
        lemma_last_index(t, c, k);
    }
}

/// Host and port named by `base`: the scheme is dropped, the path after the first `/`
/// ignored; what follows the last `:` is the port, 80 when there is none or it is not
/// a `u16`.
pub open spec fn host_port_spec(base: Seq<char>) -> (Seq<char>, u16) {
    let authority = first_field(without_scheme(base), '/');
    let k = last_index(authority, ':');
    if k >= 0 {
        (
            authority.take(k),
            match parse_u16_spec(authority.skip(k + 1)) {
                Some(p) => p,
                None => 80,
            },
        )
    } else {
        (authority, 80)
    }
}

/// Host and port of the media node from its base URL (such as `http://127.0.0.1:8081`).
pub fn host_port(base: &str) -> (r: (String, u16))
    ensures
        r.0@ == host_port_spec(base@).0,
        r.1 == host_port_spec(base@).1,
{
    let v = chars_of(base);
    proof {
        reveal_strlit("http://");
        reveal_strlit("https://");
    }
    let from: usize = if str_starts_with(base, "http://") {
        7
    } else if str_starts_with(base, "https://") {
        8
    } else {
        0
    };
    let rest = string_from_range(&v, from, v.len());
    assert(rest@ =~= without_scheme(base@));
    let authority = first_field_of(rest.as_str(), '/');
    let a = chars_of(authority.as_str());
    let mut k: usize = a.len();
    while k > 0 && a[k - 1] != ':'
        invariant
            k <= a@.len(),
            forall|j: int| k <= j < a@.len() ==> a@[j] != ':',
        decreases k,
    {
        k = k - 1;
    }
    proof {
        lemma_last_index(a@, ':', k as int);
    }
    if k > 0 {
        let host = string_from_range(&a, 0, k - 1);
        let port_text = string_from_range(&a, k, a.len());
        assert(host@ =~= a@.take(k - 1));
        assert(port_text@ =~= a@.skip(k as int));
        let port = match parse_u16(port_text.as_str()) {
            Some(p) => p,
            None => 80,
        };
        (host, port)
    } else {
        (authority, 80)
    }
}

} // verus!
