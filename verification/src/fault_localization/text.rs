//! Reading numbers and names out of the text of a trace.

use vstd::prelude::*;

verus! {

/// The value of a decimal digit; none for any other character.
pub open spec fn digit(c: char) -> Option<nat> {
    if '0' <= c && c <= '9' {
        Some((c as nat - '0' as nat) as nat)
    } else {
        None
    }
}

/// The number that a text of decimal digits writes. None if the text is
/// empty or holds anything but the digits `0` to `9`.
pub open spec fn decimal(s: Seq<char>) -> Option<nat>
    decreases s.len(),
{
    if s.len() == 0 {
        None
    } else if s.len() == 1 {
        digit(s[0])
    } else {
        match (decimal(s.drop_last()), digit(s.last())) {
            (Some(v), Some(d)) => Some(v * 10 + d),
            _ => None,
        }
    }
}

/// The number that a text of decimal digits writes, if it is at most
/// `max`.
pub open spec fn decimal_up_to(s: Seq<char>, max: nat) -> Option<nat> {
    match decimal(s) {
        Some(v) => if v <= max {
            Some(v)
        } else {
            None
        },
        None => None,
    }
}

/// Reads a decimal number that is at most `max`.
pub fn parse_decimal(s: &str, max: u64) -> (r: Option<u64>)
    ensures
        match r {
            Some(v) => decimal_up_to(s@, max as nat) == Some(v as nat),
            None => decimal_up_to(s@, max as nat) is None,
        },
{
    let n = s.unicode_len();
    if n == 0 {
        return None;
    }
    let mut acc: u64 = 0;
    let mut too_big = false;
    let ghost mut value: nat = 0;
    let mut i: usize = 0;
    while i < n
        invariant
            i <= n,
            n == s@.len(),
            i > 0 ==> decimal(s@.take(i as int)) == Some(value),
            i == 0 ==> value == 0,
            !too_big ==> acc == value && acc <= max,
            too_big ==> value > max,
        decreases n - i,
    {
        let c = s.get_char(i);
        proof {
            assert(s@.take(i as int + 1).drop_last() =~= s@.take(i as int));
            assert(s@.take(i as int + 1).last() == c);
        }
        if !(c >= '0' && c <= '9') {
            proof {
                lemma_bad_digit(s@, i as int);
            }
            return None;
        }
        let d: u64 = (c as u32 - '0' as u32) as u64;
        proof {
            value = value * 10 + d as nat;
        }
        if !too_big {
            if d > max || acc > (max - d) / 10 {
                too_big = true;
            } else {
                acc = acc * 10 + d;
            }
        }
        i += 1;
    }
    assert(s@.take(n as int) =~= s@);
    if too_big {
        None
    } else {
        Some(acc)
    }
}

/// A text with a character that is no digit writes no number.
proof fn lemma_bad_digit(s: Seq<char>, i: int)
    requires
        0 <= i < s.len(),
        digit(s[i]) is None,
    ensures
        decimal(s) is None,
    decreases s.len(),
{
    if s.len() > 1 && i < s.len() - 1 {
        lemma_bad_digit(s.drop_last(), i);
    }
}

/// The part of `s` from `start` on that follows the last `::`, where the
/// text is read from `i` on, left to right, and a `::` that overlaps the
/// one before it does not count.
pub open spec fn last_segment_from(s: Seq<char>, start: int, i: int) -> Seq<char>
    decreases s.len() - i,
{
    if i < 0 || i + 2 > s.len() {
        s.subrange(start, s.len() as int)
    } else if s[i] == ':' && s[i + 1] == ':' {
        last_segment_from(s, i + 2, i + 2)
    } else {
        last_segment_from(s, start, i + 1)
    }
}

/// The last segment of a path: what follows its last `::`, or all of it
/// if it holds none.
pub open spec fn last_segment(s: Seq<char>) -> Seq<char> {
    last_segment_from(s, 0, 0)
}

/// The last segment of a path.
pub fn last_segment_of(s: &str) -> (r: String)
    ensures
        r@ == last_segment(s@),
{
    let n = s.unicode_len();
    let mut start: usize = 0;
    let mut i: usize = 0;
    while i < n && n - i >= 2
        invariant
            start <= i <= n,
            n == s@.len(),
            last_segment(s@) == last_segment_from(s@, start as int, i as int),
        decreases n - i,
    {
        if s.get_char(i) == ':' && s.get_char(i + 1) == ':' {
            start = i + 2;
            i = i + 2;
        } else {
            i = i + 1;
        }
    }
    String::from_str(s.substring_char(start, n))
}

/// Whether `pat` stands in `s` at `i`.
pub open spec fn occurs_at(s: Seq<char>, pat: Seq<char>, i: int) -> bool {
    0 <= i && i + pat.len() <= s.len() && s.subrange(i, i + pat.len()) == pat
}

/// Whether `pat` stands in `s` at `i`.
pub fn stands_at(s: &str, pat: &str, i: usize) -> (r: bool)
    requires
        i + pat@.len() <= s@.len(),
    ensures
        r == occurs_at(s@, pat@, i as int),
{
    let m = pat.unicode_len();
    let n = s.unicode_len();
    let mut j: usize = 0;
    while j < m
        invariant
            j <= m,
            m == pat@.len(),
            n == s@.len(),
            i + m <= n,
            forall|k: int| 0 <= k < j ==> s@[i + k] == pat@[k],
        decreases m - j,
    {
        if s.get_char(i + j) != pat.get_char(j) {
            assert(s@.subrange(i as int, i + m)[j as int] != pat@[j as int]);
            return false;
        }
        j += 1;
    }
    assert(s@.subrange(i as int, i + m) =~= pat@);
    true
}

/// Whether `s` begins with `pat`.
pub fn starts_with_text(s: &str, pat: &str) -> (r: bool)
    ensures
        r == occurs_at(s@, pat@, 0),
{
    pat.unicode_len() <= s.unicode_len() && stands_at(s, pat, 0)
}

/// The fields of a text: the parts between its colons, in order. A text
/// without a colon is one field; an empty text is one empty field.
pub open spec fn fields(s: Seq<char>) -> Seq<Seq<char>>
    decreases s.len(),
{
    if s.len() == 0 {
        seq![Seq::empty()]
    } else {
        let before = fields(s.drop_last());
        if s.last() == ':' {
            before.push(Seq::empty())
        } else {
            before.update(before.len() - 1, before.last().push(s.last()))
        }
    }
}

/// The texts of a list of strings, in order.
pub open spec fn texts_view(v: Seq<String>) -> Seq<Seq<char>> {
    Seq::new(v.len(), |i: int| v[i]@)
}

/// The fields of a text.
pub fn split_fields(s: &str) -> (r: Vec<String>)
    ensures
        texts_view(r@) == fields(s@),
{
    let n = s.unicode_len();
    let mut done: Vec<String> = Vec::new();
    let mut start: usize = 0;
    let mut i: usize = 0;
    assert(s@.take(0) =~= Seq::empty());
    assert(texts_view(done@).push(s@.subrange(0, 0)) =~= seq![Seq::<char>::empty()]);
    while i < n
        invariant
            start <= i <= n,
            n == s@.len(),
            fields(s@.take(i as int)) == texts_view(done@).push(
                s@.subrange(start as int, i as int),
            ),
        decreases n - i,
    {
        let c = s.get_char(i);
        let ghost before = fields(s@.take(i as int));
        proof {
            assert(s@.take(i as int + 1).drop_last() =~= s@.take(i as int));
            assert(s@.take(i as int + 1).last() == c);
        }
        if c == ':' {
            let ghost d0 = texts_view(done@);
            let part = String::from_str(s.substring_char(start, i));
            done.push(part);
            assert(texts_view(done@) =~= d0.push(s@.subrange(start as int, i as int)));
            start = i + 1;
            assert(s@.subrange(start as int, i as int + 1) =~= Seq::empty());
        } else {
            assert(s@.subrange(start as int, i as int + 1) =~= s@.subrange(
                start as int,
                i as int,
            ).push(c));
            assert(before.last() == s@.subrange(start as int, i as int));
            assert(before.update(before.len() - 1, before.last().push(c)) =~= texts_view(
                done@,
            ).push(s@.subrange(start as int, i as int + 1)));
        }
        i += 1;
    }
    assert(s@.take(n as int) =~= s@);
    let ghost d0 = texts_view(done@);
    let part = String::from_str(s.substring_char(start, n));
    done.push(part);
    assert(texts_view(done@) =~= d0.push(s@.subrange(start as int, n as int)));
    done
}

} // verus!
