//! Whitespace, and trimming it off the ends of a run of characters.

use crate::scan::{
    lemma_prefix_len, lemma_prefix_len_unique, lemma_suffix_len, lemma_suffix_len_unique,
    prefix_len, suffix_len,
};
use vstd::prelude::*;
use vstd::slice::slice_subrange;

verus! {

/// The characters that count as whitespace: the code points that carry the
/// Unicode property `White_Space`.
pub open spec fn spec_is_whitespace(c: char) -> bool {
    let n = c as u32;
    ||| 0x09 <= n <= 0x0d
    ||| n == 0x20
    ||| n == 0x85
    ||| n == 0xa0
    ||| n == 0x1680
    ||| 0x2000 <= n <= 0x200a
    ||| n == 0x2028
    ||| n == 0x2029
    ||| n == 0x202f
    ||| n == 0x205f
    ||| n == 0x3000
}

/// Whether `c` is whitespace.
pub fn is_whitespace(c: char) -> (b: bool)
    ensures
        b == spec_is_whitespace(c),
{
    let n: u32 = c as u32;
    (0x09 <= n && n <= 0x0d) || n == 0x20 || n == 0x85 || n == 0xa0 || n == 0x1680 || (0x2000 <= n
        && n <= 0x200a) || n == 0x2028 || n == 0x2029 || n == 0x202f || n == 0x205f || n == 0x3000
}

/// The whitespace test as a predicate on characters.
pub open spec fn whitespace() -> spec_fn(char) -> bool {
    |c: char| spec_is_whitespace(c)
}

/// The test for anything but whitespace, as a predicate on characters.
pub open spec fn non_whitespace() -> spec_fn(char) -> bool {
    |c: char| !spec_is_whitespace(c)
}

/// How many whitespace characters `s` begins with.
pub open spec fn spec_leading_whitespace(s: Seq<char>) -> nat {
    prefix_len(s, whitespace())
}

/// How many whitespace characters `s` ends with.
pub open spec fn spec_trailing_whitespace(s: Seq<char>) -> nat {
    suffix_len(s, whitespace())
}

/// How many characters of `s` stand before its first whitespace character;
/// all of them where it has none.
pub open spec fn spec_token_len(s: Seq<char>) -> nat {
    prefix_len(s, non_whitespace())
}

/// `s` without the whitespace it begins with.
pub open spec fn spec_trim_start(s: Seq<char>) -> Seq<char> {
    s.skip(spec_leading_whitespace(s) as int)
}

/// `s` without the whitespace it ends with.
pub open spec fn spec_trim_end(s: Seq<char>) -> Seq<char> {
    s.take(s.len() - spec_trailing_whitespace(s))
}

/// `s` without the whitespace at either end.
pub open spec fn spec_trim(s: Seq<char>) -> Seq<char> {
    spec_trim_end(spec_trim_start(s))
}

/// Whether `s` neither begins nor ends with whitespace.
pub open spec fn is_trimmed(s: Seq<char>) -> bool {
    s.len() > 0 ==> !spec_is_whitespace(s.first()) && !spec_is_whitespace(s.last())
}

/// Counts the whitespace characters that `s` begins with.
pub fn leading_whitespace(s: &[char]) -> (k: usize)
    ensures
        k == spec_leading_whitespace(s@),
        k <= s@.len(),
{
    let mut k: usize = 0;
    while k < s.len() && is_whitespace(s[k])
        invariant
            k <= s@.len(),
            forall|i: int| 0 <= i < k ==> whitespace()(#[trigger] s@[i]),
        decreases s@.len() - k,
    {
        k += 1;
    }
    proof {
        lemma_prefix_len_unique(s@, whitespace(), k as int);
    }
    k
}

/// Counts the whitespace characters that `s` ends with.
pub fn trailing_whitespace(s: &[char]) -> (k: usize)
    ensures
        k == spec_trailing_whitespace(s@),
        k <= s@.len(),
{
    let n: usize = s.len();
    let mut k: usize = 0;
    while k < n && is_whitespace(s[n - k - 1])
        invariant
            n == s@.len(),
            k <= n,
            forall|i: int| n - k <= i < n ==> whitespace()(#[trigger] s@[i]),
        decreases n - k,
    {
        k += 1;
    }
    proof {
        lemma_suffix_len_unique(s@, whitespace(), k as int);
    }
    k
}

/// Counts the characters of `s` before its first whitespace character.
pub fn token_len(s: &[char]) -> (k: usize)
    ensures
        k == spec_token_len(s@),
        k <= s@.len(),
{
    let mut k: usize = 0;
    while k < s.len() && !is_whitespace(s[k])
        invariant
            k <= s@.len(),
            forall|i: int| 0 <= i < k ==> non_whitespace()(#[trigger] s@[i]),
        decreases s@.len() - k,
    {
        k += 1;
    }
    proof {
        lemma_prefix_len_unique(s@, non_whitespace(), k as int);
    }
    k
}

/// Drops the whitespace that `s` begins with.
pub fn trim_start(s: &[char]) -> (r: &[char])
    ensures
        r@ == spec_trim_start(s@),
{
    let k: usize = leading_whitespace(s);
    slice_subrange(s, k, s.len())
}

/// Drops the whitespace that `s` ends with.
pub fn trim_end(s: &[char]) -> (r: &[char])
    ensures
        r@ == spec_trim_end(s@),
{
    let k: usize = trailing_whitespace(s);
    slice_subrange(s, 0, s.len() - k)
}

/// Drops the whitespace at either end of `s`.
pub fn trim(s: &[char]) -> (r: &[char])
    ensures
        r@ == spec_trim(s@),
{
    trim_end(trim_start(s))
}

/// Trimming drops whitespace and nothing else: what it leaves is a stretch
/// of `s`, and every character of `s` before or after that stretch is
/// whitespace.
pub proof fn lemma_trim_drops_whitespace(s: Seq<char>)
    ensures
        spec_leading_whitespace(s) + spec_trim(s).len() <= s.len(),
        spec_trim(s) == s.subrange(
            spec_leading_whitespace(s) as int,
            (spec_leading_whitespace(s) + spec_trim(s).len()) as int,
        ),
        forall|i: int|
            0 <= i < spec_leading_whitespace(s) || spec_leading_whitespace(s) + spec_trim(s).len()
                <= i < s.len() ==> spec_is_whitespace(#[trigger] s[i]),
{
    let a = spec_leading_whitespace(s) as int;
    let rest = spec_trim_start(s);
    let t = spec_trim(s);
    lemma_prefix_len(s, whitespace());
    lemma_suffix_len(rest, whitespace());
    assert forall|i: int| 0 <= i < a || a + t.len() <= i < s.len() implies spec_is_whitespace(
        #[trigger] s[i],
    ) by {
        if i >= a {
            assert(whitespace()(rest[i - a]));
        }
    }
}

/// What trimming leaves neither begins nor ends with whitespace, and trimming
/// it again changes nothing.
pub proof fn lemma_trim_is_trimmed(s: Seq<char>)
    ensures
        is_trimmed(spec_trim(s)),
        spec_trim(spec_trim(s)) == spec_trim(s),
{
    let a = spec_trim_start(s);
    let t = spec_trim(s);
    lemma_prefix_len(s, whitespace());
    lemma_suffix_len(a, whitespace());
    lemma_prefix_len_unique(t, whitespace(), 0);
    lemma_suffix_len_unique(t, whitespace(), 0);
}

} // verus!
