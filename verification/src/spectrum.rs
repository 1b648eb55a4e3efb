//! Transform sizing: every sample window is zero-padded to the next power of
//! two before it is handed to the Fourier transform.

use vstd::prelude::*;

verus! {

/// `n` is a power of two.
pub open spec fn is_pow2(n: nat) -> bool
    decreases n,
{
    n == 1 || (n >= 2 && n % 2 == 0 && is_pow2(n / 2))
}

/// The least power of two that is at least `n`, with 0 for 0.
pub open spec fn next_pow2(n: nat) -> nat
    decreases n,
{
    if n <= 1 {
        n
    } else {
        2 * next_pow2((n + 1) / 2)
    }
}

/// For a non-empty length, `next_pow2` is a power of two that is at least the
/// length and less than twice the length.
pub proof fn lemma_next_pow2_bounds(n: nat)
    requires
        n >= 1,
    ensures
        is_pow2(next_pow2(n)),
        n <= next_pow2(n) < 2 * n,
    decreases n,
{
    if n >= 2 {
        lemma_next_pow2_bounds((n + 1) / 2);
        let h = next_pow2((n + 1) / 2);
        assert((2 * h) / 2 == h);
        assert((2 * h) % 2 == 0);
    }
}

/// There is only one power of two in `[n, 2n)`: any such number is
/// `next_pow2(n)`.
pub proof fn lemma_next_pow2_unique(n: nat, p: nat)
    requires
        is_pow2(p),
        n <= p < 2 * n,
    ensures
        p == next_pow2(n),
    decreases n,
{
    if n >= 2 {
        lemma_next_pow2_unique((n + 1) / 2, p / 2);
    }
}

/// A power of two below `n` is at most half of `next_pow2(n)`.
pub proof fn lemma_pow2_below(n: nat, p: nat)
    requires
        is_pow2(p),
        p < n,
    ensures
        2 * p <= next_pow2(n),
    decreases n,
{
    if p == 1 {
        lemma_next_pow2_bounds(n);
    } else {
        lemma_pow2_below((n + 1) / 2, p / 2);
    }
}

/// The size of the transform for a window of `len` samples: `next_pow2(len)`,
/// or `None` where that number does not fit in a `usize`.
pub fn transform_size(len: usize) -> (size: Option<usize>)
    ensures
        match size {
            Some(n) => n == next_pow2(len as nat),
            None => next_pow2(len as nat) > usize::MAX,
        },
        len == 0 ==> size == Some(0usize),
{
    if len == 0 {
        return Some(0);
    }
    let mut p: usize = 1;
    while p < len
        invariant
            is_pow2(p as nat),
            1 <= p < 2 * len,
        decreases 2 * len - p,
    {
        proof {
            lemma_pow2_below(len as nat, p as nat);
        }
        if p > usize::MAX / 2 {
            return None;
        }
        proof {
            assert((2 * p) as nat / 2 == p as nat);
            assert((2 * p) as nat % 2 == 0);
        }
        p = 2 * p;
    }
    proof {
        lemma_next_pow2_unique(len as nat, p as nat);
    }
    Some(p)
}

/// The transform's input for a window: the samples in order, followed by as
/// many copies of `zero` as it takes to reach `next_pow2` of the window's
/// length. An empty window gives an empty buffer. `None` where the padded
/// length does not fit in a `usize`.
pub fn pad_window<T: Copy>(samples: &[T], zero: T) -> (padded: Option<Vec<T>>)
    ensures
        padded is None <==> next_pow2(samples@.len()) > usize::MAX,
        samples@.len() == 0 ==> (padded matches Some(buffer) && buffer@.len() == 0),
        match padded {
            Some(buffer) => {
                &&& buffer@.len() == next_pow2(samples@.len())
                &&& buffer@.subrange(0, samples@.len() as int) == samples@
                &&& forall|i: int| samples@.len() <= i < buffer@.len() ==> buffer@[i] == zero
            },
            None => true,
        },
{
    let n: usize = match transform_size(samples.len()) {
        Some(n) => n,
        None => {
            return None;
        },
    };
    proof {
        if samples@.len() >= 1 {
            lemma_next_pow2_bounds(samples@.len());
        }
    }
    let mut buffer: Vec<T> = Vec::new();
    let mut i: usize = 0;
    while i < samples.len()
        invariant
            i <= samples@.len() <= n,
            buffer@ == samples@.subrange(0, i as int),
        decreases samples@.len() - i,
    {
        buffer.push(samples[i]);
        i = i + 1;
        assert(buffer@ =~= samples@.subrange(0, i as int));
    }
    assert(samples@.subrange(0, i as int) =~= samples@);
    while i < n
        invariant
            samples@.len() <= i <= n,
            buffer@.len() == i,
            buffer@.subrange(0, samples@.len() as int) == samples@,
            forall|j: int| samples@.len() <= j < i ==> buffer@[j] == zero,
        decreases n - i,
    {
        buffer.push(zero);
        i = i + 1;
        assert(buffer@.subrange(0, samples@.len() as int) =~= samples@);
    }
    Some(buffer)
}

} // verus!
