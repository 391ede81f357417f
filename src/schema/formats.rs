//! Checks for the string formats a string schema can require.

use vstd::prelude::*;
use crate::schema::pattern::{accepts, pattern_accepts};
use crate::text::{has_prefix, text_starts_with};

verus! {

pub open spec fn is_digit(c: char) -> bool {
    '0' <= c && c <= '9'
}

/// Whether every character is an ASCII digit.
pub open spec fn all_digits(s: Seq<char>) -> bool {
    forall|i: int| 0 <= i < s.len() ==> is_digit(#[trigger] s[i])
}

/// The number that a run of ASCII digits spells.
pub open spec fn digits_value(s: Seq<char>) -> nat
    decreases s.len(),
{
    if s.len() == 0 {
        0
    } else {
        digits_value(s.drop_last()) * 10 + ((s.last() as u32 - '0' as u32) as nat)
    }
}

/// Whether `p` is the text of a `u8`: an optional `+`, then one or more
/// ASCII digits whose value is at most 255.
pub open spec fn u8_text(p: Seq<char>) -> bool {
    let d = if p.len() > 0 && p[0] == '+' { p.drop_first() } else { p };
    d.len() > 0 && all_digits(d) && digits_value(d) <= 255
}

/// The parts of `s` between occurrences of `c` (always at least one part).
pub open spec fn split_on(s: Seq<char>, c: char) -> Seq<Seq<char>>
    decreases s.len(),
{
    if s.len() == 0 {
        seq![Seq::empty()]
    } else {
        let prev = split_on(s.drop_last(), c);
        if s.last() == c {
            prev.push(Seq::empty())
        } else {
            prev.update(prev.len() - 1, prev.last().push(s.last()))
        }
    }
}

/// Four dot-separated parts, each the text of a `u8`.
pub open spec fn ipv4_ok(s: Seq<char>) -> bool {
    let parts = split_on(s, '.');
    parts.len() == 4 && forall|k: int| 0 <= k < 4 ==> u8_text(#[trigger] parts[k])
}

/// Whether the characters of `s` from `from` to `to` spell a `u8`.
fn u8_at(s: &str, from: usize, to: usize) -> (r: bool)
    requires
        from <= to <= s@.len(),
    ensures
        r == u8_text(s@.subrange(from as int, to as int)),
{
    let ghost p = s@.subrange(from as int, to as int);
    let mut start = from;
    if from < to && s.get_char(from) == '+' {
        start = from + 1;
    }
    let ghost d = s@.subrange(start as int, to as int);
    proof {
        if from < to && p[0] == '+' {
            assert(d =~= p.drop_first());
        } else {
            assert(d =~= p);
        }
    }
    if start == to {
        return false;
    }
    let mut acc: u32 = 0;
    let mut i = start;
    while i < to
        invariant
            start <= i <= to <= s@.len(),
            d == s@.subrange(start as int, to as int),
            p == s@.subrange(from as int, to as int),
            u8_text(p) == (d.len() > 0 && all_digits(d) && digits_value(d) <= 255),
            all_digits(s@.subrange(start as int, i as int)),
            acc == if digits_value(s@.subrange(start as int, i as int)) > 255 { 256 } else { digits_value(s@.subrange(start as int, i as int)) },
        decreases to - i,
    {
        let c = s.get_char(i);
        let ghost pre = s@.subrange(start as int, i as int);
        proof {
            assert(s@.subrange(start as int, i + 1).drop_last() =~= pre);
            assert(s@.subrange(start as int, i + 1).last() == c);
        }
        if !('0' <= c && c <= '9') {
            proof {
                assert(d[i - start] == c);
                assert(!is_digit(d[i - start]));
            }
            return false;
        }
        let v = (c as u32) - ('0' as u32);
        if acc > 255 {
            acc = 256;
        } else {
            acc = acc * 10 + v;
            if acc > 255 {
                acc = 256;
            }
        }
        i = i + 1;
        proof {
            let cur = s@.subrange(start as int, i as int);
            assert forall|k: int| 0 <= k < cur.len() implies is_digit(#[trigger] cur[k]) by {
                if k < pre.len() {
                    assert(cur[k] == pre[k]);
                }
            }
        }
    }
    proof { assert(s@.subrange(start as int, i as int) =~= d); }
    acc <= 255
}

/// Four dot-separated parts, each the text of a `u8`.
pub fn validate_ipv4(s: &str) -> (r: bool)
    ensures
        r == ipv4_ok(s@),
{
    let n = s.unicode_len();
    let mut parts: usize = 1;
    let mut all_ok = true;
    let mut start: usize = 0;
    let mut i: usize = 0;
    let ghost mut done: Seq<Seq<char>> = Seq::empty();
    proof {
        assert(s@.subrange(0, 0) =~= Seq::<char>::empty());
        assert(split_on(s@.subrange(0, 0), '.') =~= seq![Seq::<char>::empty()]);
        assert(done.push(s@.subrange(0, 0)) =~= seq![Seq::<char>::empty()]);
    }
    while i < n
        invariant
            n == s@.len(),
            start <= i <= n,
            split_on(s@.subrange(0, i as int), '.') == done.push(s@.subrange(start as int, i as int)),
            parts == if done.len() + 1 > 5 { 5 } else { done.len() + 1 },
            all_ok == (forall|k: int| 0 <= k < done.len() ==> u8_text(#[trigger] done[k])),
        decreases n - i,
    {
        let c = s.get_char(i);
        let ghost pre = s@.subrange(0, i as int);
        proof {
            assert(s@.subrange(0, i + 1).drop_last() =~= pre);
            assert(s@.subrange(0, i + 1).last() == c);
        }
        if c == '.' {
            let ok = u8_at(s, start, i);
            let ghost old_done = done;
            proof {
                done = done.push(s@.subrange(start as int, i as int));
                assert(s@.subrange(i + 1, i + 1) =~= Seq::<char>::empty());
                assert(split_on(s@.subrange(0, i + 1), '.') =~= done.push(s@.subrange(i + 1, i + 1)));
            }
            if parts < 5 {
                parts = parts + 1;
            }
            let new_ok = all_ok && ok;
            proof {
                if new_ok {
                    assert forall|k: int| 0 <= k < done.len() implies u8_text(#[trigger] done[k]) by {
                        if k < old_done.len() {
                            assert(done[k] == old_done[k]);
                        }
                    }
                } else if !ok {
                    assert(!u8_text(done[done.len() - 1]));
                } else {
                    let k = choose|k: int| 0 <= k < old_done.len() && !u8_text(#[trigger] old_done[k]);
                    assert(done[k] == old_done[k]);
                }
            }
            all_ok = new_ok;
            start = i + 1;
        } else {
            proof {
                assert(s@.subrange(start as int, i + 1) =~= s@.subrange(start as int, i as int).push(c));
                let prev = split_on(pre, '.');
                assert(prev.len() - 1 == done.len());
                assert(split_on(s@.subrange(0, i + 1), '.') =~= done.push(s@.subrange(start as int, i + 1)));
            }
        }
        i = i + 1;
    }
    proof {
        assert(s@.subrange(0, n as int) =~= s@);
    }
    if parts != 4 || !all_ok {
        proof {
            if parts != 4 {
                assert(split_on(s@, '.').len() != 4);
            } else {
                let k = choose|k: int| 0 <= k < done.len() && !u8_text(#[trigger] done[k]);
                assert(split_on(s@, '.')[k] == done[k]);
            }
        }
        return false;
    }
    let last_ok = u8_at(s, start, n);
    proof {
        let parts_seq = split_on(s@, '.');
        assert(parts_seq[3] == s@.subrange(start as int, n as int));
        if last_ok {
            assert forall|k: int| 0 <= k < 4 implies u8_text(#[trigger] parts_seq[k]) by {
                if k < 3 {
                    assert(parts_seq[k] == done[k]);
                }
            }
        }
    }
    last_ok
}

/// A string that starts with `http://` or `https://`.
pub open spec fn url_ok(s: Seq<char>) -> bool {
    has_prefix(s, "http://"@) || has_prefix(s, "https://"@)
}

pub fn validate_url(s: &str) -> (r: bool)
    ensures
        r == url_ok(s@),
{
    text_starts_with(s, "http://") || text_starts_with(s, "https://")
}

pub open spec fn email_ok(s: Seq<char>) -> bool {
    pattern_accepts("^[^\\s@]+@[^\\s@]+\\.[^\\s@]+$"@, s)
}

pub fn validate_email(s: &str) -> (r: bool)
    ensures
        r == email_ok(s@),
{
    accepts("^[^\\s@]+@[^\\s@]+\\.[^\\s@]+$", s)
}

pub open spec fn uuid_ok(s: Seq<char>) -> bool {
    pattern_accepts("^[0-9a-fA-F]{8}-[0-9a-fA-F]{4}-[0-9a-fA-F]{4}-[0-9a-fA-F]{4}-[0-9a-fA-F]{12}$"@, s)
}

pub fn validate_uuid(s: &str) -> (r: bool)
    ensures
        r == uuid_ok(s@),
{
    accepts("^[0-9a-fA-F]{8}-[0-9a-fA-F]{4}-[0-9a-fA-F]{4}-[0-9a-fA-F]{4}-[0-9a-fA-F]{12}$", s)
}

/// Within the shape `dddd-dd-dd`: ASCII digits, a year from 1000 to 9999,
/// a month from 1 to 12 and a day from 1 to 31.
pub open spec fn date_fields_ok(s: Seq<char>) -> bool {
    &&& s.len() == 10
    &&& all_digits(s.subrange(0, 4)) && all_digits(s.subrange(5, 7)) && all_digits(s.subrange(8, 10))
    &&& 1000 <= digits_value(s.subrange(0, 4)) <= 9999
    &&& 1 <= digits_value(s.subrange(5, 7)) <= 12
    &&& 1 <= digits_value(s.subrange(8, 10)) <= 31
}

pub open spec fn date_ok(s: Seq<char>) -> bool {
    pattern_accepts("^\\d{4}-\\d{2}-\\d{2}$"@, s) && date_fields_ok(s)
}

/// The value of the ASCII digits from `from` to `to`, or `None` if another
/// character stands there.
fn digits_at(s: &str, from: usize, to: usize) -> (r: Option<u32>)
    requires
        from <= to <= s@.len(),
        to - from <= 4,
    ensures
        r is Some <==> all_digits(s@.subrange(from as int, to as int)),
        r is Some ==> r->Some_0 == digits_value(s@.subrange(from as int, to as int)),
{
    let mut acc: u32 = 0;
    let mut i = from;
    while i < to
        invariant
            from <= i <= to <= s@.len(),
            to - from <= 4,
            all_digits(s@.subrange(from as int, i as int)),
            acc == digits_value(s@.subrange(from as int, i as int)),
            acc < pow10((i - from) as nat),
        decreases to - i,
    {
        let c = s.get_char(i);
        let ghost pre = s@.subrange(from as int, i as int);
        proof {
            assert(s@.subrange(from as int, i + 1).drop_last() =~= pre);
            assert(s@.subrange(from as int, i + 1).last() == c);
        }
        if !('0' <= c && c <= '9') {
            proof { assert(s@.subrange(from as int, to as int)[i - from] == c); }
            return None;
        }
        proof {
            assert(pow10((i + 1 - from) as nat) == 10 * pow10((i - from) as nat));
            assert(pow10((i - from) as nat) <= 1000) by {
                assert(pow10(0) == 1);
                assert(pow10(1) == 10);
                assert(pow10(2) == 100);
                assert(pow10(3) == 1000);
            }
        }
        acc = acc * 10 + ((c as u32) - ('0' as u32));
        i = i + 1;
        proof {
            let cur = s@.subrange(from as int, i as int);
            assert forall|k: int| 0 <= k < cur.len() implies is_digit(#[trigger] cur[k]) by {
                if k < pre.len() {
                    assert(cur[k] == pre[k]);
                }
            }
        }
    }
    Some(acc)
}

pub open spec fn pow10(n: nat) -> nat
    decreases n,
{
    if n == 0 { 1 } else { 10 * pow10((n - 1) as nat) }
}

pub fn validate_date(s: &str) -> (r: bool)
    ensures
        r == date_ok(s@),
{
    if !accepts("^\\d{4}-\\d{2}-\\d{2}$", s) {
        return false;
    }
    if s.unicode_len() != 10 {
        return false;
    }
    let year = digits_at(s, 0, 4);
    let month = digits_at(s, 5, 7);
    let day = digits_at(s, 8, 10);
    match (year, month, day) {
        (Some(y), Some(m), Some(d)) => 1000 <= y && y <= 9999 && 1 <= m && m <= 12 && 1 <= d && d <= 31,
        _ => false,
    }
}

pub open spec fn datetime_ok(s: Seq<char>) -> bool {
    pattern_accepts("^\\d{4}-\\d{2}-\\d{2}T\\d{2}:\\d{2}:\\d{2}"@, s)
}

pub fn validate_datetime(s: &str) -> (r: bool)
    ensures
        r == datetime_ok(s@),
{
    accepts("^\\d{4}-\\d{2}-\\d{2}T\\d{2}:\\d{2}:\\d{2}", s)
}

pub open spec fn ipv6_ok(s: Seq<char>) -> bool {
    pattern_accepts("^([0-9a-fA-F]{0,4}:){7}[0-9a-fA-F]{0,4}$|^::$|^::1$|^([0-9a-fA-F]{0,4}:){0,6}:([0-9a-fA-F]{0,4}:){0,6}[0-9a-fA-F]{0,4}$"@, s)
}

pub fn validate_ipv6(s: &str) -> (r: bool)
    ensures
        r == ipv6_ok(s@),
{
    accepts("^([0-9a-fA-F]{0,4}:){7}[0-9a-fA-F]{0,4}$|^::$|^::1$|^([0-9a-fA-F]{0,4}:){0,6}:([0-9a-fA-F]{0,4}:){0,6}[0-9a-fA-F]{0,4}$", s)
}

/// An IPv4 or an IPv6 address.
pub fn validate_ip(s: &str) -> (r: bool)
    ensures
        r == (ipv4_ok(s@) || ipv6_ok(s@)),
{
    validate_ipv4(s) || validate_ipv6(s)
}

} // verus!
