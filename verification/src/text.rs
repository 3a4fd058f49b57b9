//! Text primitives of the wire format: whitespace, trimming and prefixes,
//! stated over sequences of characters and computed over character vectors.

use vstd::prelude::*;
use vstd::string::*;

verus! {

/// The views of a vector of texts.
pub open spec fn lines_of(lines: Seq<String>) -> Seq<Seq<char>> {
    lines.map_values(|line: String| line@)
}

/// The characters that carry Unicode's `White_Space` property.
pub open spec fn is_whitespace(c: char) -> bool {
    let n = c as u32;
    ||| 0x09 <= n <= 0x0D
    ||| n == 0x20
    ||| n == 0x85
    ||| n == 0xA0
    ||| n == 0x1680
    ||| 0x2000 <= n <= 0x200A
    ||| n == 0x2028
    ||| n == 0x2029
    ||| n == 0x202F
    ||| n == 0x205F
    ||| n == 0x3000
}

/// `s` without its leading whitespace.
pub open spec fn trim_start(s: Seq<char>) -> Seq<char>
    decreases s.len(),
{
    if s.len() > 0 && is_whitespace(s.first()) {
        trim_start(s.drop_first())
    } else {
        s
    }
}

/// `s` without its trailing whitespace.
pub open spec fn trim_end(s: Seq<char>) -> Seq<char>
    decreases s.len(),
{
    if s.len() > 0 && is_whitespace(s.last()) {
        trim_end(s.drop_last())
    } else {
        s
    }
}

/// `s` without its leading and trailing whitespace.
pub open spec fn trim(s: Seq<char>) -> Seq<char> {
    trim_end(trim_start(s))
}

/// `s` neither begins nor ends with whitespace.
pub open spec fn is_trimmed(s: Seq<char>) -> bool {
    s.len() > 0 ==> !is_whitespace(s.first()) && !is_whitespace(s.last())
}

/// Whether `c` is whitespace.
pub fn is_whitespace_char(c: char) -> (b: bool)
    ensures
        b == is_whitespace(c),
{
    let n: u32 = c as u32;
    (0x09 <= n && n <= 0x0D) || n == 0x20 || n == 0x85 || n == 0xA0 || n == 0x1680 || (0x2000 <= n
        && n <= 0x200A) || n == 0x2028 || n == 0x2029 || n == 0x202F || n == 0x205F || n == 0x3000
}

/// Dropping `k` leading whitespace characters that are followed by the end of
/// `s` or by a character that is no whitespace gives `trim_start(s)`.
pub proof fn lemma_trim_start_skips(s: Seq<char>, k: int)
    requires
        0 <= k <= s.len(),
        forall|i: int| 0 <= i < k ==> is_whitespace(#[trigger] s[i]),
        k < s.len() ==> !is_whitespace(s[k]),
    ensures
        trim_start(s) == s.skip(k),
    decreases k,
{
    if k == 0 {
        assert(s.skip(0) =~= s);
    } else {
        let rest = s.drop_first();
        assert forall|i: int| 0 <= i < k - 1 implies is_whitespace(#[trigger] rest[i]) by {
            assert(rest[i] == s[i + 1]);
        }
        lemma_trim_start_skips(rest, k - 1);
        assert(rest.skip(k - 1) =~= s.skip(k));
    }
}

/// Keeping the first `k` characters of `s`, where only whitespace follows and
/// the last one kept, if any, is no whitespace, gives `trim_end(s)`.
pub proof fn lemma_trim_end_takes(s: Seq<char>, k: int)
    requires
        0 <= k <= s.len(),
        forall|i: int| k <= i < s.len() ==> is_whitespace(#[trigger] s[i]),
        k > 0 ==> !is_whitespace(s[k - 1]),
    ensures
        trim_end(s) == s.take(k),
    decreases s.len() - k,
{
    if k == s.len() {
        assert(s.take(k) =~= s);
    } else {
        let rest = s.drop_last();
        lemma_trim_end_takes(rest, k);
        assert(rest.take(k) =~= s.take(k));
    }
}

/// A sequence that neither begins nor ends with whitespace is its own trim.
pub proof fn lemma_trim_of_trimmed(s: Seq<char>)
    requires
        is_trimmed(s),
    ensures
        trim(s) == s,
{
    lemma_trim_start_skips(s, 0);
    assert(s.skip(0) =~= s);
    lemma_trim_end_takes(s, s.len() as int);
    assert(s.take(s.len() as int) =~= s);
}

/// The characters of `s`, in order.
pub fn chars_of(s: &str) -> (v: Vec<char>)
    ensures
        v@ == s@,
{
    let mut v: Vec<char> = Vec::new();
    for c in it: s.chars()
        invariant
            it.seq() == s@,
            v@ == s@.take(it.index() as int),
    {
        v.push(c);
        assert(s@.take(it.index() + 1) =~= s@.take(it.index() as int).push(c));
    }
    assert(s@.take(s@.len() as int) =~= s@);
    v
}

/// The bounds of the trimmed part of `v[lo..hi]`.
pub fn trim_bounds(v: &Vec<char>, lo: usize, hi: usize) -> (r: (usize, usize))
    requires
        lo <= hi <= v.len(),
    ensures
        lo <= r.0 <= r.1 <= hi,
        v@.subrange(r.0 as int, r.1 as int) == trim(v@.subrange(lo as int, hi as int)),
{
    let ghost part = v@.subrange(lo as int, hi as int);
    let mut a: usize = lo;
    while a < hi && is_whitespace_char(v[a])
        invariant
            lo <= a <= hi <= v.len(),
            forall|i: int| lo <= i < a ==> is_whitespace(#[trigger] v@[i]),
        decreases hi - a,
    {
        a = a + 1;
    }
    let mut b: usize = hi;
    while b > a && is_whitespace_char(v[b - 1])
        invariant
            a <= b <= hi <= v.len(),
            forall|i: int| b <= i < hi ==> is_whitespace(#[trigger] v@[i]),
        decreases b - a,
    {
        b = b - 1;
    }
    proof {
        assert forall|i: int| 0 <= i < a - lo implies is_whitespace(#[trigger] part[i]) by {
            assert(part[i] == v@[lo + i]);
        }
        lemma_trim_start_skips(part, a - lo);
        let rest = part.skip(a - lo);
        assert(rest =~= v@.subrange(a as int, hi as int));
        assert forall|i: int| b - a <= i < rest.len() implies is_whitespace(#[trigger] rest[i]) by {
            assert(rest[i] == v@[a + i]);
        }
        lemma_trim_end_takes(rest, b - a);
        assert(rest.take(b - a) =~= v@.subrange(a as int, b as int));
    }
    (a, b)
}

/// Whether `v[lo..hi]` begins with `prefix`.
pub fn has_prefix(v: &Vec<char>, lo: usize, hi: usize, prefix: &Vec<char>) -> (b: bool)
    requires
        lo <= hi <= v.len(),
    ensures
        b == prefix@.is_prefix_of(v@.subrange(lo as int, hi as int)),
{
    let ghost part = v@.subrange(lo as int, hi as int);
    let n: usize = prefix.len();
    if n > hi - lo {
        return false;
    }
    let mut i: usize = 0;
    while i < n
        invariant
            i <= n == prefix.len(),
            n <= hi - lo,
            lo <= hi <= v.len(),
            part == v@.subrange(lo as int, hi as int),
            forall|j: int| 0 <= j < i ==> prefix@[j] == #[trigger] part[j],
        decreases n - i,
    {
        if prefix[i] != v[lo + i] {
            assert(part[i as int] == v@[lo + i]);
            assert(part.subrange(0, n as int)[i as int] != prefix@[i as int]);
            return false;
        }
        assert(part[i as int] == v@[lo + i]);
        i = i + 1;
    }
    assert(prefix@ =~= part.subrange(0, n as int));
    true
}

/// `s` without the occurrences of `unwanted`.
pub open spec fn without(s: Seq<char>, unwanted: char) -> Seq<char>
    decreases s.len(),
{
    if s.len() == 0 {
        Seq::empty()
    } else if s.last() == unwanted {
        without(s.drop_last(), unwanted)
    } else {
        without(s.drop_last(), unwanted).push(s.last())
    }
}

/// `text` without the occurrences of `unwanted`.
pub fn remove_char(text: &str, unwanted: char) -> (cleaned: String)
    ensures
        cleaned@ == without(text@, unwanted),
{
    let v = chars_of(text);
    let mut cleaned = String::new();
    let mut start: usize = 0;
    let mut i: usize = 0;
    assert(v@.take(0) =~= Seq::<char>::empty());
    assert(cleaned@ + v@.subrange(0, 0) =~= without(v@.take(0), unwanted));
    while i < v.len()
        invariant
            start <= i <= v.len(),
            v@ == text@,
            cleaned@ + v@.subrange(start as int, i as int) == without(v@.take(i as int), unwanted),
        decreases v.len() - i,
    {
        proof {
            let next = v@.take(i + 1);
            assert(next.drop_last() =~= v@.take(i as int));
            assert(next.last() == v@[i as int]);
        }
        if v[i] == unwanted {
            cleaned.append(text.substring_char(start, i));
            start = i + 1;
            assert(cleaned@ + v@.subrange(i + 1, i + 1) =~= cleaned@);
        } else {
            assert(v@.subrange(start as int, i + 1) =~= v@.subrange(start as int, i as int).push(
                v@[i as int],
            ));
            assert(cleaned@ + v@.subrange(start as int, i + 1) =~= (cleaned@ + v@.subrange(
                start as int,
                i as int,
            )).push(v@[i as int]));
        }
        i = i + 1;
    }
    cleaned.append(text.substring_char(start, i));
    assert(v@.take(v.len() as int) =~= v@);
    cleaned
}

} // verus!
