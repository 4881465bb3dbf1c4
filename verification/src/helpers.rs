//! Integer helpers for sizing the work handed to external compute backends.

use vstd::prelude::*;

verus! {

/// The number of workgroups needed to cover `dim` items at `size` items per
/// group — the ceiling of `dim / size` — capped at 256 groups.
pub fn wg_size(dim: usize, size: usize) -> (res: usize)
    requires
        size > 0,
        dim + size <= usize::MAX,
    ensures
        res == if (dim + size - 1) / (size as int) < 256 {
            (dim + size - 1) / (size as int)
        } else {
            256
        },
{
    let groups = (dim + size - 1) / size;
    if groups < 256 {
        groups
    } else {
        256
    }
}

/// Whether `j` witnesses a factor of `n` that the square-root-bounded scan
/// of [`least_prime_factor`] can find.
pub open spec fn scan_factor(n: int, j: int) -> bool {
    j * j <= n && n % j == 0
}

/// The least factor of `n` in `start..=isqrt(n)`, or `n` itself when that
/// range holds no factor — so, with `start` at the first prime, the least
/// prime factor of `n`.  The scan may stop at the integer square root
/// because any factor beyond it pairs with one below it.
pub fn least_prime_factor(n: usize, start: usize) -> (res: usize)
    requires
        start >= 1,
    ensures
        ({
            ||| (res == n && forall|j: int| start <= j ==> !#[trigger] scan_factor(n as int, j))
            ||| (start <= res && scan_factor(n as int, res as int) && (forall|j: int|
                start <= j < res ==> !#[trigger] scan_factor(n as int, j)))
        }),
{
    let mut i = start;
    while i <= n / i
        invariant
            start <= i,
            forall|j: int| start <= j < i ==> !#[trigger] scan_factor(n as int, j),
        decreases n + 1 - i,
    {
        proof {
            assert(i * i <= n && i <= n) by (nonlinear_arith)
                requires
                    i >= 1,
                    i as int <= n as int / (i as int),
                    n >= 0,
            ;
            assert(i < usize::MAX) by (nonlinear_arith)
                requires
                    i >= 1,
                    i * i <= n,
                    n <= usize::MAX,
                    usize::MAX >= 2,
            ;
        }
        if n % i == 0 {
            return i;
        }
        i = i + 1;
    }
    proof {
        assert forall|j: int| start <= j implies !scan_factor(n as int, j) by {
            if j >= i && j * j <= n {
                assert(j <= n as int / j) by (nonlinear_arith)
                    requires
                        j >= 1,
                        j * j <= n,
                ;
                assert(i as int <= n as int / (i as int)) by (nonlinear_arith)
                    requires
                        1 <= i as int <= j,
                        j <= n as int / j,
                        n >= 0,
                ;
            }
        }
    }
    n
}

} // verus!
