//! Index regions of column-major buffers that the kernels visit: a run split
//! into whole vector blocks and a scalar remainder, and the on-or-above-
//! diagonal part of each column of an `n × n` matrix.
use vstd::prelude::*;

verus! {

/// The indices `[start, end)`, handled as whole blocks of a tier's lanes up
/// to `vector_end` and one by one from there.
#[derive(Clone, Copy, Debug, PartialEq, Eq, Structural)]
pub struct Run {
    pub start: usize,
    pub vector_end: usize,
    pub end: usize,
}

impl Run {
    /// `self` covers `[start, end)`, with the largest prefix made of whole
    /// blocks of `lanes` elements.
    pub open spec fn splits(self, start: nat, end: nat, lanes: nat) -> bool {
        &&& self.start == start
        &&& self.end == end
        &&& start <= self.vector_end <= end
        &&& (self.vector_end - start) % (lanes as int) == 0
        &&& end - self.vector_end < lanes
    }
}

/// Splits `len` elements from `start` into vector blocks of `lanes` and a
/// remainder shorter than one block.
pub fn split_run(start: usize, len: usize, lanes: usize) -> (r: Run)
    requires
        lanes >= 1,
        start + len <= usize::MAX,
    ensures
        r.splits(start as nat, (start + len) as nat, lanes as nat),
{
    let remainder = len % lanes;
    proof {
        vstd::arithmetic::div_mod::lemma_fundamental_div_mod(len as int, lanes as int);
        vstd::arithmetic::div_mod::lemma_mod_multiples_basic((len / lanes) as int, lanes as int);
        assert((len / lanes) * lanes == lanes * (len / lanes)) by (nonlinear_arith);
        assert(len - remainder == (len / lanes) * lanes);
    }
    Run { start, vector_end: start + (len - remainder), end: start + len }
}

/// Entry `k` of an `n × n` column-major matrix lies on or above the diagonal.
pub open spec fn in_upper_triangle(n: nat, k: nat) -> bool {
    &&& k < n * n
    &&& k % n <= k / n
}

/// The on-or-above-diagonal entries of column `j`: rows `0..=j`.
pub open spec fn column_upper_part(n: nat, j: nat, k: nat) -> bool {
    j * n <= k < j * n + j + 1
}

/// The run of column `j` of an `n × n` column-major matrix that the
/// triangular kernel updates: rows `0..=j`, that is indices
/// `[j·n, j·n + j + 1)`.
pub fn triangle_column_run(n: usize, j: usize, lanes: usize) -> (r: Run)
    requires
        j < n,
        n * n <= usize::MAX,
        lanes >= 1,
    ensures
        r.splits((j * n) as nat, (j * n + j + 1) as nat, lanes as nat),
{
    proof {
        assert(j * n + j + 1 <= n * n) by (nonlinear_arith)
            requires
                j < n,
        ;
    }
    split_run(j * n, j + 1, lanes)
}

/// The column runs are exactly the upper triangle: an index lies in the run
/// of column `j` if and only if it is on or above the diagonal and in column
/// `j`. So a kernel that writes only inside these runs leaves every entry
/// strictly below the diagonal unchanged.
pub proof fn lemma_column_runs_are_upper_triangle(n: nat, j: nat, k: nat)
    requires
        j < n,
    ensures
        column_upper_part(n, j, k) <==> (in_upper_triangle(n, k) && k / n == j),
{
    if column_upper_part(n, j, k) {
        let i = k - j * n;
        assert(k == j * n + i && 0 <= i <= j);
        vstd::arithmetic::div_mod::lemma_fundamental_div_mod_converse(k as int, n as int, j as int, i);
        assert(j * n + j + 1 <= n * n) by (nonlinear_arith)
            requires
                j < n,
        ;
    }
    if in_upper_triangle(n, k) && k / n == j {
        vstd::arithmetic::div_mod::lemma_fundamental_div_mod(k as int, n as int);
        assert(k == n * (k / n) + k % n);
        assert(n * j == j * n) by (nonlinear_arith);
    }
}

} // verus!
