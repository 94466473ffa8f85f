use vstd::prelude::*;

verus! {

/// Whether bit `p` of `x` is set (false for positions outside 0..32).
pub open spec fn bit(x: u32, p: int) -> bool {
    0 <= p < 32 && ((x >> (p as u32)) & 1u32) == 1u32
}

/// Number of positions `p` in `0..n` at which `f(p)` holds.
pub open spec fn count_below(f: spec_fn(int) -> bool, n: int) -> nat
    decreases n,
{
    if n <= 0 {
        0
    } else {
        count_below(f, n - 1) + (if f(n - 1) { 1nat } else { 0nat })
    }
}

/// Number of set bits of `x`.
pub open spec fn popcount(x: u32) -> nat {
    count_below(|p: int| bit(x, p), 32)
}

pub proof fn lemma_count_below_ext(f: spec_fn(int) -> bool, g: spec_fn(int) -> bool, n: int)
    requires
        forall|p: int| 0 <= p < n ==> #[trigger] f(p) == g(p),
    ensures
        count_below(f, n) == count_below(g, n),
    decreases n,
{
    if n > 0 {
        lemma_count_below_ext(f, g, n - 1);
    }
}

pub proof fn lemma_count_below_bound(f: spec_fn(int) -> bool, n: int)
    ensures
        count_below(f, n) <= if n < 0 { 0 } else { n },
    decreases n,
{
    if n > 0 {
        lemma_count_below_bound(f, n - 1);
    }
}

pub proof fn lemma_count_below_none(f: spec_fn(int) -> bool, n: int)
    requires
        forall|p: int| 0 <= p < n ==> !#[trigger] f(p),
    ensures
        count_below(f, n) == 0,
    decreases n,
{
    if n > 0 {
        lemma_count_below_none(f, n - 1);
    }
}

pub proof fn lemma_count_below_split(f: spec_fn(int) -> bool, m: int, n: int)
    requires
        0 <= m <= n,
        forall|p: int| m <= p < n ==> !#[trigger] f(p),
    ensures
        count_below(f, n) == count_below(f, m),
    decreases n,
{
    if n > m {
        lemma_count_below_split(f, m, n - 1);
    }
}

pub proof fn lemma_count_below_pos(f: spec_fn(int) -> bool, n: int, p: int)
    requires
        0 <= p < n,
        f(p),
    ensures
        count_below(f, n) >= 1,
    decreases n,
{
    if n - 1 > p {
        lemma_count_below_pos(f, n - 1, p);
    }
}

/// A word has no set bit exactly when it is zero.
pub proof fn lemma_popcount_zero(x: u32)
    ensures
        (popcount(x) == 0) == (x == 0),
{
    if x == 0 {
        assert forall|p: int| 0 <= p < 32 implies !#[trigger] bit(x, p) by {
            let q = p as u32;
            assert((0u32 >> q) & 1u32 == 0u32) by (bit_vector);
        }
        lemma_count_below_none(|p: int| bit(x, p), 32);
    } else {
        vstd::std_specs::bits::axiom_u32_trailing_zeros(x);
        let t = vstd::std_specs::bits::u32_trailing_zeros(x);
        assert(bit(x, t as int));
        lemma_count_below_pos(|p: int| bit(x, p), 32, t as int);
    }
}

/// Counting a predicate that holds only on the window `lo..hi` counts its
/// shifted version over `0..hi - lo`.
pub proof fn lemma_count_window(f: spec_fn(int) -> bool, h: spec_fn(int) -> bool, lo: int, hi: int, n: int)
    requires
        0 <= lo <= hi <= n,
        forall|p: int| 0 <= p < n ==> #[trigger] f(p) == (lo <= p < hi && h(p - lo)),
    ensures
        count_below(f, n) == count_below(h, hi - lo),
    decreases n,
{
    if n > hi {
        lemma_count_window(f, h, lo, hi, n - 1);
    } else {
        lemma_count_window_prefix(f, h, lo, hi, n);
    }
}

proof fn lemma_count_window_prefix(f: spec_fn(int) -> bool, h: spec_fn(int) -> bool, lo: int, hi: int, n: int)
    requires
        0 <= lo <= n <= hi,
        forall|p: int| 0 <= p < n ==> #[trigger] f(p) == (lo <= p < hi && h(p - lo)),
    ensures
        count_below(f, n) == count_below(h, n - lo),
    decreases n,
{
    if n == lo {
        lemma_count_below_none(f, n);
    } else {
        lemma_count_window_prefix(f, h, lo, hi, n - 1);
        assert(f(n - 1) == h(n - 1 - lo));
    }
}

pub proof fn lemma_bit_and(a: u32, m: u32, p: int)
    ensures
        bit(a & m, p) == (bit(a, p) && bit(m, p)),
        bit(m & !(a & m), p) == (bit(m, p) && !bit(a, p)),
{
    if 0 <= p < 32 {
        let q = p as u32;
        assert((((a & m) >> q) & 1u32 == 1u32) == (((a >> q) & 1u32 == 1u32) && ((m >> q) & 1u32
            == 1u32)) && (((m & !(a & m)) >> q) & 1u32 == 1u32) == (((m >> q) & 1u32 == 1u32) && !(
        (a >> q) & 1u32 == 1u32))) by (bit_vector);
    }
}

/// Counts the set bits of `x`.
pub fn count_ones(x: u32) -> (r: u32)
    ensures
        r == popcount(x),
        r <= 32,
{
    let mut r: u32 = 0;
    let mut i: u32 = 0;
    while i < 32
        invariant
            i <= 32,
            r == count_below(|p: int| bit(x, p), i as int),
            r <= i,
        decreases 32 - i,
    {
        if (x >> i) & 1 == 1 {
            r = r + 1;
        }
        i = i + 1;
    }
    r
}

} // verus!
