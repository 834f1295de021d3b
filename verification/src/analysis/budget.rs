//! The first, estimated pass of a token budget: about four bytes of text
//! per token decide which rows or files are tried at all, against nine
//! tenths of the limit; the exact count comes after.
use vstd::prelude::*;
use crate::parser::{utf8_len, utf8_width, utf8_width_exec};
use crate::text::chars_of;

verus! {

/// `x`, or the largest `usize` where `x` is larger.
pub open spec fn capped(x: int) -> int {
    if x > usize::MAX {
        usize::MAX as int
    } else {
        x
    }
}

/// The tokens a text of `chars` bytes is estimated to take: a quarter,
/// rounded up.
pub open spec fn estimate_of(chars: int) -> int {
    (chars + 3) / 4
}

/// The tokens a text of `chars` bytes is estimated to take (see
/// `estimate_of`).
pub fn estimate_symbol_tokens(chars: usize) -> (r: usize)
    ensures
        r == estimate_of(chars as int),
{
    let q: usize = chars / 4;
    let m: usize = chars % 4;
    assert(chars as int == 4 * q + m) by (nonlinear_arith)
        requires
            q == chars as int / 4,
            m == chars as int % 4,
    ;
    if m == 0 {
        q
    } else {
        q + 1
    }
}

/// Nine tenths of a token limit, the product capped at the largest `usize`.
pub open spec fn estimate_limit_of(max_tokens: usize) -> int {
    capped(max_tokens as int * 9) / 10
}

/// Nine tenths of a token limit (see `estimate_limit_of`).
pub fn estimate_limit(max_tokens: usize) -> (r: usize)
    ensures
        r == estimate_limit_of(max_tokens),
{
    if max_tokens > usize::MAX / 9 {
        usize::MAX / 10
    } else {
        max_tokens * 9 / 10
    }
}

/// How many of the estimates, in order, are admitted: each is added to
/// what the ones before it used while the sum stays within `limit`; the
/// first that does not fit ends the count.
pub open spec fn admitted_from(est: Seq<usize>, used: int, limit: int) -> int
    decreases est.len(),
{
    if est.len() == 0 {
        0
    } else if used + est[0] <= limit {
        1 + admitted_from(est.drop_first(), used + est[0], limit)
    } else {
        0
    }
}

pub proof fn lemma_admitted_bounds(est: Seq<usize>, used: int, limit: int)
    ensures
        0 <= admitted_from(est, used, limit) <= est.len(),
    decreases est.len(),
{
    if est.len() > 0 {
        lemma_admitted_bounds(est.drop_first(), used + est[0], limit);
    }
}

/// How many of `estimates`, in order, fit under `limit` (see
/// `admitted_from`).
pub fn admitted_count(estimates: &Vec<usize>, limit: usize) -> (r: usize)
    ensures
        r == admitted_from(estimates@, 0, limit as int),
        r <= estimates@.len(),
{
    let ghost all = admitted_from(estimates@, 0, limit as int);
    proof {
        lemma_admitted_bounds(estimates@, 0, limit as int);
        assert(estimates@.skip(0) =~= estimates@);
    }
    let mut used: usize = 0;
    let mut i: usize = 0;
    while i < estimates.len()
        invariant
            i <= estimates@.len(),
            used <= limit,
            i + admitted_from(estimates@.skip(i as int), used as int, limit as int) == all,
            all <= estimates@.len(),
            all == admitted_from(estimates@, 0, limit as int),
        decreases estimates@.len() - i,
    {
        let e = estimates[i];
        assert(estimates@.skip(i as int).drop_first() =~= estimates@.skip(i + 1));
        assert(estimates@.skip(i as int)[0] == e);
        if e > limit - used {
            assert(admitted_from(estimates@.skip(i as int), used as int, limit as int) == 0);
            return i;
        }
        used = used + e;
        i = i + 1;
    }
    assert(estimates@.skip(i as int).len() == 0);
    i
}

/// The length of `s` in UTF-8 bytes, capped at the largest `usize`.
pub fn utf8_byte_len(s: &str) -> (r: usize)
    ensures
        r == capped(utf8_len(s@)),
{
    let v = chars_of(s);
    let mut n: usize = 0;
    let mut i: usize = 0;
    assert(v@.take(0) =~= seq![]);
    while i < v.len()
        invariant
            i <= v@.len(),
            v@ == s@,
            n == capped(utf8_len(v@.take(i as int))),
        decreases v@.len() - i,
    {
        let w = utf8_width_exec(v[i]);
        assert(v@.take(i + 1).drop_last() =~= v@.take(i as int));
        assert(utf8_len(v@.take(i + 1)) == utf8_len(v@.take(i as int)) + utf8_width(v@[i as int]));
        n = if n > usize::MAX - w {
            usize::MAX
        } else {
            n + w
        };
        i = i + 1;
    }
    assert(v@.take(i as int) =~= v@);
    n
}

/// `a + b`, capped at the largest `usize`.
pub fn capped_add(a: usize, b: usize) -> (r: usize)
    ensures
        r == capped(a + b),
{
    if a > usize::MAX - b {
        usize::MAX
    } else {
        a + b
    }
}

} // verus!
