use vstd::prelude::*;

verus! {

/// One past the last index that a window `(from, limit)` reaches in a
/// collection of `n` items.
pub open spec fn window_end(from: nat, limit: nat, n: nat) -> nat {
    if from + limit < n {
        from + limit
    } else {
        n
    }
}

/// How many items the window `(from, limit)` holds in a collection of `n` items:
/// none where `from` reaches past the end.
pub open spec fn window_len(from: nat, limit: nat, n: nat) -> nat {
    if from < window_end(from, limit, n) {
        (window_end(from, limit, n) - from) as nat
    } else {
        0
    }
}

/// The index in the collection of the `k`-th item of a window read forward.
pub open spec fn forward_index(from: nat, k: int) -> int {
    from + k
}

/// The index in the collection of the `k`-th item of a window read backward,
/// from its last index down to `from`.
pub open spec fn backward_index(from: nat, limit: nat, n: nat, k: int) -> int {
    window_end(from, limit, n) - 1 - k
}

/// The bounds `(start, end)` of the window `(from, limit)` over `n` items,
/// with `start <= end`; computed without overflow.
pub fn window(from: u64, limit: u64, n: u64) -> (r: (u64, u64))
    ensures
        r.0 == from,
        r.1 as nat == window_end(from as nat, limit as nat, n as nat),
{
    if from >= n || limit >= n - from {
        (from, n)
    } else {
        (from, from + limit)
    }
}

} // verus!
