//! Mentions in message text: `<@123>` / `<@!123>` user mentions, and the count of
//! notifying mentions that the anti-spam rule of auto-moderation reads.

use vstd::prelude::*;
use vstd::string::StringSliceAdditionalSpecFns;

verus! {

/// ASCII decimal digit.
pub open spec fn is_digit_byte(c: u8) -> bool {
    48 <= c <= 57
}

/// First index at or after `j` that does not hold a digit.
pub open spec fn digit_run_end(b: Seq<u8>, j: int) -> int
    decreases b.len() - j,
{
    if 0 <= j < b.len() && is_digit_byte(b[j]) {
        digit_run_end(b, j + 1)
    } else {
        j
    }
}

/// Value of a sequence of decimal digits.
pub open spec fn digits_value(s: Seq<u8>) -> int
    decreases s.len(),
{
    if s.len() == 0 {
        0
    } else {
        digits_value(s.drop_last()) * 10 + (s.last() - 48)
    }
}

/// The digits `[start, end)` of a mention tag beginning at `i`, when one begins there:
/// `<@`, an optional `!`, at least one digit, then `>`.
pub open spec fn mention_at(b: Seq<u8>, i: int) -> Option<(int, int)> {
    if 0 <= i && i + 1 < b.len() && b[i] == 60u8 && b[i + 1] == 64u8 {
        let j0 = i + 2;
        let start = if j0 < b.len() && b[j0] == 33u8 {
            j0 + 1
        } else {
            j0
        };
        let end = digit_run_end(b, start);
        if end < b.len() && b[end] == 62u8 && end > start {
            Some((start, end))
        } else {
            None
        }
    } else {
        None
    }
}

/// Mentioned ids found scanning from `i`, left to right, in order of appearance
/// (duplicates kept). After a tag the scan resumes behind its `>`; an id too large for
/// an `i64` is skipped.
pub open spec fn scan_mentions(b: Seq<u8>, i: int) -> Seq<i64>
    decreases b.len() - i,
{
    if i < 0 || i + 1 >= b.len() {
        Seq::empty()
    } else {
        match mention_at(b, i) {
            Some((start, end)) => {
                let v = digits_value(b.subrange(start, end));
                let rest = scan_mentions(b, end + 1);
                if v <= i64::MAX {
                    seq![v as i64] + rest
                } else {
                    rest
                }
            },
            None => scan_mentions(b, i + 1),
        }
    }
}

/// `acc` extended with the elements of `rest` it does not hold yet, in order.
pub open spec fn add_unique(acc: Seq<i64>, rest: Seq<i64>) -> Seq<i64>
    decreases rest.len(),
{
    if rest.len() == 0 {
        acc
    } else {
        let next = if acc.contains(rest[0]) {
            acc
        } else {
            acc.push(rest[0])
        };
        add_unique(next, rest.drop_first())
    }
}

/// The distinct ids mentioned in a text whose UTF-8 bytes are `b`, in order of first mention.
pub open spec fn mention_ids_spec(b: Seq<u8>) -> Seq<i64> {
    add_unique(Seq::empty(), scan_mentions(b, 0))
}

proof fn lemma_digit_run_end_bounds(b: Seq<u8>, j: int)
    requires
        0 <= j,
    ensures
        j <= digit_run_end(b, j),
        digit_run_end(b, j) <= b.len() || digit_run_end(b, j) == j,
        forall|k: int| j <= k < digit_run_end(b, j) ==> is_digit_byte(#[trigger] b[k]),
    decreases b.len() - j,
{
    if 0 <= j < b.len() && is_digit_byte(b[j]) {
        lemma_digit_run_end_bounds(b, j + 1);
    }
}

proof fn lemma_digits_value_nonneg(s: Seq<u8>)
    requires
        forall|k: int| 0 <= k < s.len() ==> is_digit_byte(#[trigger] s[k]),
    ensures
        digits_value(s) >= 0,
    decreases s.len(),
{
    if s.len() > 0 {
        assert forall|k: int| 0 <= k < s.drop_last().len() implies is_digit_byte(
            #[trigger] s.drop_last()[k],
        ) by {
            assert(s.drop_last()[k] == s[k]);
        }
        lemma_digits_value_nonneg(s.drop_last());
    }
}

/// The ids mentioned in `content` (`<@123>` or `<@!123>`), without duplicates, in order
/// of first mention.
pub fn parse_mention_ids(content: &str) -> (ids: Vec<i64>)
    ensures
        ids@ == mention_ids_spec(content.spec_bytes()),
{
    let bytes = content.as_bytes();
    let ghost b = bytes@;
    let n = bytes.len();
    let mut ids: Vec<i64> = Vec::new();
    let mut i: usize = 0;
    while n > 0 && i < n - 1
        invariant
            i <= n,
            n == b.len(),
            b == bytes@,
            b == content.spec_bytes(),
            add_unique(ids@, scan_mentions(b, i as int)) == mention_ids_spec(b),
        decreases n - i,
    {
        if bytes[i] == 60u8 && bytes[i + 1] == 64u8 {
            let mut j = i + 2;
            if j < n && bytes[j] == 33u8 {
                j = j + 1;
            }
            let start = j;
            let mut val: u64 = 0;
            let mut overflow = false;
            proof {
                lemma_digit_run_end_bounds(b, start as int);
            }
            while j < n && 48u8 <= bytes[j] && bytes[j] <= 57u8
                invariant
                    n == b.len(),
                    b == bytes@,
                    start <= j <= n,
                    digit_run_end(b, j as int) == digit_run_end(b, start as int),
                    forall|k: int| start <= k < j ==> is_digit_byte(#[trigger] b[k]),
                    !overflow ==> val == digits_value(b.subrange(start as int, j as int)),
                    !overflow ==> val <= i64::MAX,
                    overflow ==> digits_value(b.subrange(start as int, j as int)) > i64::MAX,
                decreases n - j,
            {
                let d = bytes[j] - 48u8;
                let ghost prev = b.subrange(start as int, j as int);
                assert(b.subrange(start as int, j + 1).drop_last() == prev);
                if !overflow {
                    let next: u128 = (val as u128) * 10 + (d as u128);
                    if next > 0x7FFF_FFFF_FFFF_FFFFu128 {
                        overflow = true;
                    } else {
                        val = next as u64;
                    }
                } else {
                    proof {
                        lemma_digits_value_nonneg(prev);
                    }
                }
                j = j + 1;
            }
            assert(j as int == digit_run_end(b, start as int));
            if j < n && bytes[j] == 62u8 && j > start {
                assert(mention_at(b, i as int) == Some((start as int, j as int)));
                if !overflow {
                    let id = val as i64;
                    let ghost rest = scan_mentions(b, j + 1);
                    assert((seq![id] + rest)[0] == id);
                    assert((seq![id] + rest).drop_first() == rest);
                    let mut present = false;
                    let mut k: usize = 0;
                    while k < ids.len()
                        invariant
                            0 <= k <= ids.len(),
                            present == exists|q: int| 0 <= q < k && ids@[q] == id,
                        decreases ids.len() - k,
                    {
                        if ids[k] == id {
                            present = true;
                        }
                        k = k + 1;
                    }
                    if !present {
                        ids.push(id);
                    }
                }
                i = j + 1;
                continue;
            }
            assert(mention_at(b, i as int) is None);
        } else {
            assert(mention_at(b, i as int) is None);
        }
        i = i + 1;
    }
    ids
}

/// Whether a mention tag of the id `x` begins at `k` of `b`.
pub open spec fn tag_of_id_at(b: Seq<u8>, k: int, x: i64) -> bool {
    match mention_at(b, k) {
        Some((s, e)) => digits_value(b.subrange(s, e)) == x as int,
        None => false,
    }
}

/// No tag begins inside a tag: its bytes after the `<` are `@`, `!`, digits and `>`.
proof fn lemma_no_tag_inside(b: Seq<u8>, i: int, k: int)
    requires
        mention_at(b, i) matches Some((s, e)) && i < k <= e,
    ensures
        mention_at(b, k) is None,
{
    let (s, e) = mention_at(b, i)->0;
    lemma_digit_run_end_bounds(b, s);
    if s <= k < e {
        assert(is_digit_byte(b[k]));
    }
}

/// The ids found scanning from `i` are those of the tags that begin at or after `i`.
proof fn lemma_scan_finds_tags(b: Seq<u8>, i: int, x: i64)
    requires
        0 <= i,
    ensures
        scan_mentions(b, i).contains(x) <==> exists|k: int| i <= k && #[trigger] tag_of_id_at(b, k, x),
    decreases b.len() - i,
{
    if i + 1 >= b.len() {
        assert(scan_mentions(b, i) =~= Seq::<i64>::empty());
        assert forall|k: int| i <= k implies !#[trigger] tag_of_id_at(b, k, x) by {}
    } else {
        match mention_at(b, i) {
            Some((s, e)) => {
                let v = digits_value(b.subrange(s, e));
                let rest = scan_mentions(b, e + 1);
                lemma_scan_finds_tags(b, e + 1, x);
                lemma_digit_run_end_bounds(b, s);
                assert forall|k: int| 0 <= k < b.subrange(s, e).len() implies is_digit_byte(
                    #[trigger] b.subrange(s, e)[k],
                ) by {
                    assert(b.subrange(s, e)[k] == b[s + k]);
                }
                lemma_digits_value_nonneg(b.subrange(s, e));
                if exists|k: int| i <= k && #[trigger] tag_of_id_at(b, k, x) {
                    let k = choose|k: int| i <= k && #[trigger] tag_of_id_at(b, k, x);
                    if k == i {
                        assert((seq![v as i64] + rest)[0] == x);
                    } else if k <= e {
                        lemma_no_tag_inside(b, i, k);
                    } else {
                        let q = choose|q: int| 0 <= q < rest.len() && rest[q] == x;
                        if v <= i64::MAX {
                            assert((seq![v as i64] + rest)[q + 1] == x);
                        }
                    }
                }
                if scan_mentions(b, i).contains(x) {
                    let q = choose|q: int| 0 <= q < scan_mentions(b, i).len() && scan_mentions(b, i)[q] == x;
                    if v <= i64::MAX && q == 0 {
                        assert(tag_of_id_at(b, i, x));
                    } else if v <= i64::MAX {
                        assert(rest[q - 1] == x);
                    } else {
                        assert(rest[q] == x);
                    }
                }
            },
            None => {
                lemma_scan_finds_tags(b, i + 1, x);
                assert(!tag_of_id_at(b, i, x));
            },
        }
    }
}

/// Adding the new elements of `rest` to `acc` gives the elements of both, and keeps
/// `acc` free of duplicates.
proof fn lemma_add_unique(acc: Seq<i64>, rest: Seq<i64>)
    ensures
        forall|x: i64| #[trigger] add_unique(acc, rest).contains(x) <==> acc.contains(x) || rest.contains(x),
        acc.no_duplicates() ==> add_unique(acc, rest).no_duplicates(),
    decreases rest.len(),
{
    if rest.len() > 0 {
        let next = if acc.contains(rest[0]) {
            acc
        } else {
            acc.push(rest[0])
        };
        lemma_add_unique(next, rest.drop_first());
        assert(add_unique(acc, rest) == add_unique(next, rest.drop_first()));
        assert forall|x: i64| #[trigger] add_unique(acc, rest).contains(x) <==> acc.contains(x)
            || rest.contains(x) by {
            assert(add_unique(next, rest.drop_first()).contains(x) <==> next.contains(x)
                || rest.drop_first().contains(x));
            if rest.contains(x) && x != rest[0] {
                let q = choose|q: int| 0 <= q < rest.len() && rest[q] == x;
                assert(rest.drop_first()[q - 1] == x);
            }
            if rest.drop_first().contains(x) {
                let q = choose|q: int| 0 <= q < rest.drop_first().len() && rest.drop_first()[q] == x;
                assert(rest[q + 1] == x);
            }
            if x == rest[0] {
                assert(rest.contains(x)) by {
                    assert(rest[0] == x);
                }
            }
            if acc.contains(rest[0]) {
                assert(next == acc);
                if x == rest[0] {
                    assert(acc.contains(x));
                }
            } else {
                assert(next == acc.push(rest[0]));
                if acc.contains(x) {
                    let q = choose|q: int| 0 <= q < acc.len() && acc[q] == x;
                    assert(next[q] == x);
                }
                if x == rest[0] {
                    assert(next[acc.len() as int] == x);
                }
                if next.contains(x) {
                    let q = choose|q: int| 0 <= q < next.len() && next[q] == x;
                    if q < acc.len() {
                        assert(acc[q] == x);
                    }
                }
            }
        }
        if acc.no_duplicates() && !acc.contains(rest[0]) {
            assert forall|a: int, c: int| 0 <= a < c < next.len() implies next[a] != next[c] by {
                if c == acc.len() {
                    assert(acc[a] == next[a]);
                }
            }
        }
    }
}

/// The mentioned ids of a text are exactly the ids of its `<@…>` / `<@!…>` tags whose
/// digits fit an `i64`, each once.
pub proof fn law_mentions_are_the_tags(b: Seq<u8>, x: i64)
    ensures
        mention_ids_spec(b).contains(x) <==> exists|k: int| 0 <= k && #[trigger] tag_of_id_at(b, k, x),
        mention_ids_spec(b).no_duplicates(),
{
    lemma_scan_finds_tags(b, 0, x);
    lemma_add_unique(Seq::empty(), scan_mentions(b, 0));
    assert(!Seq::<i64>::empty().contains(x));
}

/// Positions of the tags whose ids [`scan_mentions`] reports from `i`, one per id.
pub open spec fn scan_positions(b: Seq<u8>, i: int) -> Seq<int>
    decreases b.len() - i,
{
    if i < 0 || i + 1 >= b.len() {
        Seq::empty()
    } else {
        match mention_at(b, i) {
            Some((start, end)) => {
                let rest = scan_positions(b, end + 1);
                if digits_value(b.subrange(start, end)) <= i64::MAX {
                    seq![i] + rest
                } else {
                    rest
                }
            },
            None => scan_positions(b, i + 1),
        }
    }
}

/// The value of the digits of the tag at `i` is not negative.
proof fn lemma_tag_value_nonneg(b: Seq<u8>, i: int)
    requires
        mention_at(b, i) is Some,
    ensures
        ({
            let (s, e) = mention_at(b, i)->0;
            digits_value(b.subrange(s, e)) >= 0
        }),
{
    let (s, e) = mention_at(b, i)->0;
    lemma_digit_run_end_bounds(b, s);
    assert forall|k: int| 0 <= k < b.subrange(s, e).len() implies is_digit_byte(
        #[trigger] b.subrange(s, e)[k],
    ) by {
        assert(b.subrange(s, e)[k] == b[s + k]);
    }
    lemma_digits_value_nonneg(b.subrange(s, e));
}

/// The scan from `i` reports the tags at or after `i` in text order: each reported id
/// is that of the tag at its position, positions increase, and every tag at or after
/// `i` whose id fits is reported.
proof fn lemma_scan_positions(b: Seq<u8>, i: int)
    requires
        0 <= i,
    ensures
        scan_positions(b, i).len() == scan_mentions(b, i).len(),
        forall|m: int|
            0 <= m < scan_positions(b, i).len() ==> i <= #[trigger] scan_positions(b, i)[m]
                && tag_of_id_at(b, scan_positions(b, i)[m], scan_mentions(b, i)[m]),
        forall|m1: int, m2: int|
            0 <= m1 < m2 < scan_positions(b, i).len() ==> #[trigger] scan_positions(b, i)[m1]
                < #[trigger] scan_positions(b, i)[m2],
        forall|k: int, x: i64|
            i <= k && #[trigger] tag_of_id_at(b, k, x) ==> exists|m: int|
                0 <= m < scan_positions(b, i).len() && #[trigger] scan_positions(b, i)[m] == k,
    decreases b.len() - i,
{
    if i + 1 >= b.len() {
        assert forall|k: int, x: i64| i <= k && #[trigger] tag_of_id_at(b, k, x) implies false by {}
    } else {
        match mention_at(b, i) {
            Some((s, e)) => {
                lemma_scan_positions(b, e + 1);
                lemma_tag_value_nonneg(b, i);
                let v = digits_value(b.subrange(s, e));
                let rp = scan_positions(b, e + 1);
                let rm = scan_mentions(b, e + 1);
                let pos = scan_positions(b, i);
                let ids = scan_mentions(b, i);
                if v <= i64::MAX {
                    assert(pos == seq![i] + rp);
                    assert(ids == seq![v as i64] + rm);
                    assert forall|m: int| 0 <= m < pos.len() implies i <= #[trigger] pos[m]
                        && tag_of_id_at(b, pos[m], ids[m]) by {
                        if m > 0 {
                            assert(pos[m] == rp[m - 1]);
                            assert(ids[m] == rm[m - 1]);
                        }
                    }
                    assert forall|m1: int, m2: int| 0 <= m1 < m2 < pos.len() implies #[trigger] pos[m1]
                        < #[trigger] pos[m2] by {
                        assert(pos[m2] == rp[m2 - 1]);
                        if m1 > 0 {
                            assert(pos[m1] == rp[m1 - 1]);
                        }
                    }
                    assert forall|k: int, x: i64| i <= k && #[trigger] tag_of_id_at(b, k, x) implies exists|
                        m: int,
                    | 0 <= m < pos.len() && #[trigger] pos[m] == k by {
                        if k == i {
                            assert(pos[0] == k);
                        } else if k <= e {
                            lemma_no_tag_inside(b, i, k);
                        } else {
                            let m = choose|m: int| 0 <= m < rp.len() && #[trigger] rp[m] == k;
                            assert(pos[m + 1] == k);
                        }
                    }
                } else {
                    assert forall|k: int, x: i64| i <= k && #[trigger] tag_of_id_at(b, k, x) implies exists|
                        m: int,
                    | 0 <= m < pos.len() && #[trigger] pos[m] == k by {
                        if k == i {
                        } else if k <= e {
                            lemma_no_tag_inside(b, i, k);
                        }
                    }
                }
            },
            None => {
                lemma_scan_positions(b, i + 1);
                assert forall|k: int, x: i64| i <= k && #[trigger] tag_of_id_at(b, k, x) implies exists|
                    m: int,
                | 0 <= m < scan_positions(b, i).len() && #[trigger] scan_positions(b, i)[m] == k by {
                    assert(scan_positions(b, i) == scan_positions(b, i + 1));
                    if k == i {
                        assert(!tag_of_id_at(b, i, x));
                    } else {
                        assert(i + 1 <= k && tag_of_id_at(b, k, x));
                    }
                }
            },
        }
    }
}

/// `add_unique` keeps `acc` in front and appends only elements `acc` does not hold.
proof fn lemma_add_unique_prefix(acc: Seq<i64>, rest: Seq<i64>)
    ensures
        add_unique(acc, rest).len() >= acc.len(),
        forall|k: int| 0 <= k < acc.len() ==> #[trigger] add_unique(acc, rest)[k] == acc[k],
        forall|k: int|
            acc.len() <= k < add_unique(acc, rest).len() ==> !acc.contains(#[trigger] add_unique(acc, rest)[k]),
    decreases rest.len(),
{
    if rest.len() > 0 {
        let next = if acc.contains(rest[0]) {
            acc
        } else {
            acc.push(rest[0])
        };
        lemma_add_unique_prefix(next, rest.drop_first());
        let r = add_unique(acc, rest);
        assert(r == add_unique(next, rest.drop_first()));
        assert forall|k: int| acc.len() <= k < r.len() implies !acc.contains(#[trigger] r[k]) by {
            if k < next.len() {
                assert(r[k] == next[k]);
                assert(r[k] == rest[0]);
            } else if acc.contains(r[k]) {
                let q = choose|q: int| 0 <= q < acc.len() && acc[q] == r[k];
                assert(next[q] == r[k]);
            }
        }
        assert forall|k: int| 0 <= k < acc.len() implies #[trigger] r[k] == acc[k] by {
            assert(r[k] == next[k]);
        }
    }
}

/// In `add_unique(acc, rest)`, an element placed before a new one either comes from
/// `acc` or occurs in `rest` before every occurrence of the new one.
proof fn lemma_add_unique_order(acc: Seq<i64>, rest: Seq<i64>, p: int, q: int)
    requires
        0 <= p < q < add_unique(acc, rest).len(),
        acc.len() <= q,
    ensures
        acc.contains(add_unique(acc, rest)[p]) || exists|m: int|
            0 <= m < rest.len() && #[trigger] rest[m] == add_unique(acc, rest)[p] && forall|m2: int|
                0 <= m2 < rest.len() && rest[m2] == add_unique(acc, rest)[q] ==> m < m2,
    decreases rest.len(),
{
    let r = add_unique(acc, rest);
    if rest.len() > 0 {
        let next = if acc.contains(rest[0]) {
            acc
        } else {
            acc.push(rest[0])
        };
        let rest2 = rest.drop_first();
        assert(r == add_unique(next, rest2));
        lemma_add_unique_prefix(next, rest2);
        lemma_add_unique_prefix(acc, rest);
        if q < next.len() {
            assert(r[q] == next[q]);
            assert(r[p] == acc[p]);
        } else {
            assert(!next.contains(r[q]));
            assert(rest[0] != r[q]) by {
                if acc.contains(rest[0]) {
                    if rest[0] == r[q] {
                        assert(next.contains(r[q]));
                    }
                } else {
                    assert(next[acc.len() as int] == rest[0]);
                }
            }
            lemma_add_unique_order(next, rest2, p, q);
            if next.contains(r[p]) && !acc.contains(r[p]) {
                let w = choose|w: int| 0 <= w < next.len() && next[w] == r[p];
                if w < acc.len() {
                    assert(acc[w] == r[p]);
                }
                assert(rest[0] == r[p]);
                assert forall|m2: int| 0 <= m2 < rest.len() && rest[m2] == r[q] implies 0 < m2 by {}
            } else if !next.contains(r[p]) {
                let m = choose|m: int|
                    0 <= m < rest2.len() && #[trigger] rest2[m] == r[p] && forall|m2: int|
                        0 <= m2 < rest2.len() && rest2[m2] == r[q] ==> m < m2;
                assert(rest[m + 1] == r[p]);
                assert forall|m2: int| 0 <= m2 < rest.len() && rest[m2] == r[q] implies m + 1 < m2 by {
                    if m2 > 0 {
                        assert(rest2[m2 - 1] == rest[m2]);
                    }
                }
            }
        }
    }
}

/// The mentioned ids come in the order of their first tags in the text: for two of them,
/// the earlier one has a tag before every tag of the later one.
pub proof fn law_mentions_in_order_of_first_tag(b: Seq<u8>, i: int, j: int)
    requires
        0 <= i < j < mention_ids_spec(b).len(),
    ensures
        exists|k: int|
            0 <= k && #[trigger] tag_of_id_at(b, k, mention_ids_spec(b)[i]) && forall|k2: int|
                #[trigger] tag_of_id_at(b, k2, mention_ids_spec(b)[j]) ==> k < k2,
{
    let ids = mention_ids_spec(b);
    let scan = scan_mentions(b, 0);
    let pos = scan_positions(b, 0);
    lemma_scan_positions(b, 0);
    lemma_add_unique_order(Seq::empty(), scan, i, j);
    assert(!Seq::<i64>::empty().contains(ids[i]));
    let m = choose|m: int|
        0 <= m < scan.len() && #[trigger] scan[m] == ids[i] && forall|m2: int|
            0 <= m2 < scan.len() && scan[m2] == ids[j] ==> m < m2;
    let k = pos[m];
    assert(tag_of_id_at(b, k, ids[i]));
    assert forall|k2: int| #[trigger] tag_of_id_at(b, k2, ids[j]) implies k < k2 by {
        assert(mention_at(b, k2) is Some);
        let m2 = choose|m2: int| 0 <= m2 < pos.len() && #[trigger] pos[m2] == k2;
        assert(tag_of_id_at(b, k2, scan[m2]));
        assert(scan[m2] == ids[j]);
        assert(m < m2);
    }
}

/// Number of non-overlapping occurrences of `p` in `s` found by scanning from `i`
/// leftwards to rightwards: after a match the scan resumes past its end.
pub open spec fn occurrences_from(s: Seq<u8>, p: Seq<u8>, i: int) -> int
    decreases s.len() - i,
{
    if i < 0 || i >= s.len() || i + p.len() > s.len() {
        0
    } else if p.len() > 0 && s.subrange(i, i + p.len()) == p {
        1 + occurrences_from(s, p, i + p.len())
    } else {
        occurrences_from(s, p, i + 1)
    }
}

proof fn lemma_occurrences_from_bound(s: Seq<u8>, p: Seq<u8>, i: int)
    requires
        0 <= i,
    ensures
        0 <= occurrences_from(s, p, i) <= if i <= s.len() { s.len() - i } else { 0 },
    decreases s.len() - i,
{
    if !(i < 0 || i >= s.len() || i + p.len() > s.len()) {
        if p.len() > 0 && s.subrange(i, i + p.len()) == p {
            lemma_occurrences_from_bound(s, p, i + p.len());
        } else {
            lemma_occurrences_from_bound(s, p, i + 1);
        }
    }
}

/// Number of non-overlapping occurrences of `p` in `s`, as `str::matches` counts them.
pub open spec fn occurrences(s: Seq<u8>, p: Seq<u8>) -> int {
    occurrences_from(s, p, 0)
}

/// Number of non-overlapping occurrences of the non-empty pattern `p` in `s`.
pub fn count_occurrences(s: &[u8], p: &[u8]) -> (r: usize)
    requires
        p@.len() > 0,
    ensures
        r == occurrences(s@, p@),
        r <= s@.len(),
{
    let n = s.len();
    let m = p.len();
    let mut count: usize = 0;
    let mut i: usize = 0;
    proof {
        lemma_occurrences_from_bound(s@, p@, 0);
    }
    while m <= n && i <= n - m
        invariant
            i <= n,
            count <= i,
            n == s@.len(),
            m == p@.len(),
            m > 0,
            count + occurrences_from(s@, p@, i as int) == occurrences(s@, p@),
        decreases n - i,
    {
        let mut k: usize = 0;
        let mut same = true;
        while k < m
            invariant
                n == s@.len(),
                m == p@.len(),
                i + m <= n,
                0 <= k <= m,
                same == forall|q: int| 0 <= q < k ==> s@[i + q] == p@[q],
            decreases m - k,
        {
            if s[i + k] != p[k] {
                same = false;
            }
            k = k + 1;
        }
        if same {
            assert(s@.subrange(i as int, i + m) =~= p@);
            count = count + 1;
            i = i + m;
        } else {
            assert(s@.subrange(i as int, i + m) != p@) by {
                let q = choose|q: int| 0 <= q < m && s@[i + q] != p@[q];
                assert(s@.subrange(i as int, i + m)[q] == s@[i + q]);
            }
            i = i + 1;
        }
    }
    proof {
        lemma_occurrences_from_bound(s@, p@, i as int);
    }
    count
}

/// Notifying mentions of a text with UTF-8 bytes `b`: user and role tags (`<@`), plus
/// `@everyone` and `@here`.
pub open spec fn count_mentions_spec(b: Seq<u8>) -> int {
    occurrences(b, "<@"@.map_values(|c: char| c as u8)) + occurrences(
        b,
        "@everyone"@.map_values(|c: char| c as u8),
    ) + occurrences(b, "@here"@.map_values(|c: char| c as u8))
}

/// Number of notifying mentions in `content`.
pub fn count_mentions(content: &str) -> (r: i64)
    ensures
        r == count_mentions_spec(content.spec_bytes()) as i64,
{
    let b = content.as_bytes();
    let tag: [u8; 2] = [60u8, 64u8];
    let everyone: [u8; 9] = [64u8, 101u8, 118u8, 101u8, 114u8, 121u8, 111u8, 110u8, 101u8];
    let here: [u8; 5] = [64u8, 104u8, 101u8, 114u8, 101u8];
    proof {
        reveal_strlit("<@");
        reveal_strlit("@everyone");
        reveal_strlit("@here");
        assert(tag@ =~= "<@"@.map_values(|c: char| c as u8));
        assert(everyone@ =~= "@everyone"@.map_values(|c: char| c as u8));
        assert(here@ =~= "@here"@.map_values(|c: char| c as u8));
    }
    let a = count_occurrences(b, tag.as_slice());
    let e = count_occurrences(b, everyone.as_slice());
    let h = count_occurrences(b, here.as_slice());
    let total: u128 = (a as u128) + (e as u128) + (h as u128);
    #[verifier::truncate]
    (total as i64)
}

/// The users a message notifies: those it mentions, other than its author, who can see
/// the channel (`can_view` at the same index), in the order mentioned.
pub fn mention_targets(ids: &Vec<i64>, author: i64, can_view: &Vec<bool>) -> (r: Vec<i64>)
    requires
        ids@.len() == can_view@.len(),
    ensures
        r@ == Seq::new(ids@.len(), |i: int| i).filter(|i: int| ids@[i] != author && can_view@[i]).map_values(
            |i: int| ids@[i],
        ),
{
    let ghost idx = Seq::new(ids@.len(), |i: int| i);
    let ghost pred = |i: int| ids@[i] != author && can_view@[i];
    let mut out: Vec<i64> = Vec::new();
    let mut i: usize = 0;
    while i < ids.len()
        invariant
            0 <= i <= ids@.len(),
            ids@.len() == can_view@.len(),
            idx == Seq::new(ids@.len(), |i: int| i),
            pred == (|i: int| ids@[i] != author && can_view@[i]),
            out@ == idx.take(i as int).filter(pred).map_values(|i: int| ids@[i]),
        decreases ids.len() - i,
    {
        proof {
            reveal(Seq::filter);
            assert(idx.take(i + 1).drop_last() =~= idx.take(i as int));
            assert(idx.take(i + 1).last() == i as int);
        }
        if ids[i] != author && can_view[i] {
            out.push(ids[i]);
            assert(out@ =~= idx.take(i + 1).filter(pred).map_values(|i: int| ids@[i]));
        } else {
            assert(idx.take(i as int).filter(pred) =~= idx.take(i + 1).filter(pred));
        }
        i = i + 1;
    }
    assert(idx.take(ids@.len() as int) =~= idx);
    out
}

/// Page size of the mention inbox (25 by default, `1..=50`) and the number of recent
/// mentions read to fill it (four times as many, since some are filtered out).
pub fn inbox_window(limit: Option<i64>) -> (r: (i64, i64))
    ensures
        r.0 == (match limit {
            Some(l) => if l < 1 { 1 } else if l > 50 { 50 } else { l },
            None => 25,
        }),
        r.1 == r.0 * 4,
{
    let l = crate::search::clamp_limit(limit, 25, 50);
    (l, l * 4)
}

/// The inbox entries kept: the first `limit` of the mentions read whose message still
/// exists in a channel the user can still read (`readable`), by index, in order.
pub fn inbox_selection(readable: &Vec<bool>, limit: i64) -> (r: Vec<usize>)
    requires
        limit >= 0,
    ensures
        ({
            let kept = Seq::new(readable@.len(), |i: int| i).filter(|i: int| readable@[i]);
            r@.map_values(|i: usize| i as int) == (if kept.len() <= limit { kept } else { kept.take(limit as int) })
        }),
{
    let ghost idx = Seq::new(readable@.len(), |i: int| i);
    let ghost pred = |i: int| readable@[i];
    let mut out: Vec<usize> = Vec::new();
    let mut i: usize = 0;
    while i < readable.len()
        invariant
            0 <= i <= readable@.len(),
            limit >= 0,
            idx == Seq::new(readable@.len(), |i: int| i),
            pred == (|i: int| readable@[i]),
            out@.len() <= limit,
            ({
                let k = idx.take(i as int).filter(pred);
                out@.map_values(|i: usize| i as int) == (if k.len() <= limit { k } else { k.take(limit as int) })
            }),
        decreases readable.len() - i,
    {
        let ghost f = idx.take(i as int).filter(pred);
        proof {
            reveal(Seq::filter);
            assert(idx.take(i + 1).drop_last() =~= idx.take(i as int));
            assert(idx.take(i + 1).last() == i as int);
        }
        if readable[i] {
            if (out.len() as i64) < limit {
                let ghost before = out@;
                proof {
                    assert(before.map_values(|i: usize| i as int).len() == before.len());
                    assert(f.len() <= limit);
                    assert(before.map_values(|i: usize| i as int) == f);
                }
                out.push(i);
                assert(out@.map_values(|i: usize| i as int) =~= before.map_values(|i: usize| i as int).push(
                    i as int,
                ));
                assert(out@.map_values(|i: usize| i as int) =~= f.push(i as int));
            } else {
                assert(f.push(i as int).take(limit as int) =~= (if f.len() <= limit { f } else { f.take(limit as int) }));
            }
        } else {
            assert(f =~= idx.take(i + 1).filter(pred));
        }
        i = i + 1;
    }
    assert(idx.take(readable@.len() as int) =~= idx);
    out
}

} // verus!
