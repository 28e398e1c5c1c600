//! Scalar kernels of the exponential engine, generic over the element type:
//! the element operation (a product by a factor, `alpha·x + y`, `x + y`, a
//! two-term dot product) is passed in, and each kernel is proved to apply it
//! to exactly the entries its contract names and to leave the rest alone.
use crate::region::{in_upper_triangle, lemma_column_runs_are_upper_triangle};
use vstd::prelude::*;

verus! {

/// `dst[i] = op(src[i])` for `i` in `[start, end)`: the scalar form of
/// `scale`.
pub fn map_range<T: Copy, F: Fn(T) -> T>(src: &[T], dst: &mut Vec<T>, start: usize, end: usize, op: F)
    requires
        start <= end <= src@.len(),
        end <= old(dst)@.len(),
        forall|x: T| op.requires((x,)),
    ensures
        final(dst)@.len() == old(dst)@.len(),
        forall|i: int| start <= i < end ==> op.ensures((src@[i],), #[trigger] final(dst)@[i]),
        forall|i: int|
            0 <= i < old(dst)@.len() && !(start <= i < end) ==> #[trigger] final(dst)@[i]
                == old(dst)@[i],
{
    let mut i = start;
    while i < end
        invariant
            start <= i <= end <= src@.len(),
            end <= dst@.len(),
            dst@.len() == old(dst)@.len(),
            forall|x: T| op.requires((x,)),
            forall|k: int| start <= k < i ==> op.ensures((src@[k],), #[trigger] dst@[k]),
            forall|k: int|
                0 <= k < dst@.len() && !(start <= k < i) ==> #[trigger] dst@[k] == old(dst)@[k],
        decreases end - i,
    {
        let v = op(src[i]);
        dst.set(i, v);
        i = i + 1;
    }
}

/// `buf[i] = op(buf[i])` for `i` in `[start, end)`: `scale` in place.
pub fn map_range_in_place<T: Copy, F: Fn(T) -> T>(buf: &mut Vec<T>, start: usize, end: usize, op: F)
    requires
        start <= end <= old(buf)@.len(),
        forall|x: T| op.requires((x,)),
    ensures
        final(buf)@.len() == old(buf)@.len(),
        forall|i: int| start <= i < end ==> op.ensures((old(buf)@[i],), #[trigger] final(buf)@[i]),
        forall|i: int|
            0 <= i < old(buf)@.len() && !(start <= i < end) ==> #[trigger] final(buf)@[i]
                == old(buf)@[i],
{
    let mut i = start;
    while i < end
        invariant
            start <= i <= end <= buf@.len(),
            buf@.len() == old(buf)@.len(),
            forall|x: T| op.requires((x,)),
            forall|k: int| start <= k < i ==> op.ensures((old(buf)@[k],), #[trigger] buf@[k]),
            forall|k: int|
                0 <= k < buf@.len() && !(start <= k < i) ==> #[trigger] buf@[k] == old(buf)@[k],
        decreases end - i,
    {
        let v = op(buf[i]);
        buf.set(i, v);
        i = i + 1;
    }
}

/// `dst[i] = op(src[i], dst[i])` for `i` in `[start, end)`: the scalar
/// form of `fused_scale_add` (`op = alpha·x + y`) and `add` (`op = x + y`).
pub fn zip_range<T: Copy, F: Fn(T, T) -> T>(src: &[T], dst: &mut Vec<T>, start: usize, end: usize, op: F)
    requires
        start <= end <= src@.len(),
        end <= old(dst)@.len(),
        forall|x: T, y: T| op.requires((x, y)),
    ensures
        final(dst)@.len() == old(dst)@.len(),
        forall|i: int|
            start <= i < end ==> op.ensures((src@[i], old(dst)@[i]), #[trigger] final(dst)@[i]),
        forall|i: int|
            0 <= i < old(dst)@.len() && !(start <= i < end) ==> #[trigger] final(dst)@[i]
                == old(dst)@[i],
{
    let mut i = start;
    while i < end
        invariant
            start <= i <= end <= src@.len(),
            end <= dst@.len(),
            dst@.len() == old(dst)@.len(),
            forall|x: T, y: T| op.requires((x, y)),
            forall|k: int| start <= k < i ==> op.ensures((src@[k], old(dst)@[k]), #[trigger] dst@[k]),
            forall|k: int|
                0 <= k < dst@.len() && !(start <= k < i) ==> #[trigger] dst@[k] == old(dst)@[k],
        decreases end - i,
    {
        let v = op(src[i], dst[i]);
        dst.set(i, v);
        i = i + 1;
    }
}

/// `dst[k] = op(src[k], dst[k])` for every entry `k` on or above the
/// diagonal of an `n × n` column-major matrix, column by column; the entries
/// strictly below the diagonal are never read or written. The scalar form of
/// `triangular_fused_scale_add`.
pub fn triangular_zip<T: Copy, F: Fn(T, T) -> T>(src: &[T], dst: &mut Vec<T>, n: usize, op: F)
    requires
        n * n <= usize::MAX,
        n * n <= src@.len(),
        n * n <= old(dst)@.len(),
        forall|x: T, y: T| op.requires((x, y)),
    ensures
        final(dst)@.len() == old(dst)@.len(),
        forall|k: int|
            0 <= k && in_upper_triangle(n as nat, k as nat) ==> op.ensures(
                (src@[k], old(dst)@[k]),
                #[trigger] final(dst)@[k],
            ),
        forall|k: int|
            0 <= k < old(dst)@.len() && !in_upper_triangle(n as nat, k as nat) ==> #[trigger] final(dst)@[k] == old(dst)@[k],
{
    let mut j: usize = 0;
    while j < n
        invariant
            j <= n,
            n * n <= usize::MAX,
            n * n <= src@.len(),
            n * n <= dst@.len(),
            dst@.len() == old(dst)@.len(),
            forall|x: T, y: T| op.requires((x, y)),
            forall|k: int|
                0 <= k < j * n && in_upper_triangle(n as nat, k as nat) ==> op.ensures(
                    (src@[k], old(dst)@[k]),
                    #[trigger] dst@[k],
                ),
            forall|k: int|
                0 <= k < dst@.len() && !(k < j * n && in_upper_triangle(n as nat, k as nat))
                    ==> #[trigger] dst@[k] == old(dst)@[k],
        decreases n - j,
    {
        proof {
            assert(j * n + j + 1 <= n * n && (j + 1) * n == j * n + n) by (nonlinear_arith)
                requires
                    j < n,
            ;
        }
        let base = j * n;
        let mut i: usize = 0;
        while i <= j
            invariant
                j < n,
                i <= j + 1,
                base == j * n,
                j * n + j + 1 <= n * n,
                n * n <= usize::MAX,
                (j + 1) * n == j * n + n,
                n * n <= src@.len(),
                n * n <= dst@.len(),
                dst@.len() == old(dst)@.len(),
                forall|x: T, y: T| op.requires((x, y)),
                forall|k: int|
                    0 <= k < base + i && in_upper_triangle(n as nat, k as nat) ==> op.ensures(
                        (src@[k], old(dst)@[k]),
                        #[trigger] dst@[k],
                    ),
                forall|k: int|
                    0 <= k < dst@.len() && !(k < base + i && in_upper_triangle(n as nat, k as nat))
                        ==> #[trigger] dst@[k] == old(dst)@[k],
            decreases j + 1 - i,
        {
            proof {
                lemma_column_runs_are_upper_triangle(n as nat, j as nat, (base + i) as nat);
            }
            let v = op(src[base + i], dst[base + i]);
            dst.set(base + i, v);
            i = i + 1;
        }
        proof {
            assert forall|k: int|
                base + j + 1 <= k < base + n implies !#[trigger] in_upper_triangle(n as nat, k as nat) by {
                vstd::arithmetic::div_mod::lemma_fundamental_div_mod_converse(
                    k,
                    n as int,
                    j as int,
                    k - base,
                );
                lemma_column_runs_are_upper_triangle(n as nat, j as nat, k as nat);
            }
        }
        j = j + 1;
    }
    proof {
        assert forall|k: int| 0 <= k && #[trigger] in_upper_triangle(n as nat, k as nat) implies k < n * n by {}
    }
}

/// The 2×2 product `out = a·b` of column-major matrices, each entry formed
/// by `dot(x0, y0, x1, y1) = x0·y0 + x1·y1` from a row of `a` and a column of
/// `b`. The result is a fresh array, so it never aliases an operand.
pub fn matmul_2x2<T: Copy, F: Fn(T, T, T, T) -> T>(a: &[T; 4], b: &[T; 4], dot: F) -> (out: [T; 4])
    requires
        forall|x0: T, y0: T, x1: T, y1: T| dot.requires((x0, y0, x1, y1)),
    ensures
        forall|i: int, j: int|
            0 <= i < 2 && 0 <= j < 2 ==> dot.ensures(
                (a@[i], b@[2 * j], a@[i + 2], b@[2 * j + 1]),
                #[trigger] out@[i + 2 * j],
            ),
{
    let c00 = dot(a[0], b[0], a[2], b[1]);
    let c10 = dot(a[1], b[0], a[3], b[1]);
    let c01 = dot(a[0], b[2], a[2], b[3]);
    let c11 = dot(a[1], b[2], a[3], b[3]);
    let out = [c00, c10, c01, c11];
    proof {
        assert forall|i: int, j: int| 0 <= i < 2 && 0 <= j < 2 implies dot.ensures(
            (a@[i], b@[2 * j], a@[i + 2], b@[2 * j + 1]),
            #[trigger] out@[i + 2 * j],
        ) by {
            if i == 0 && j == 0 {
                assert(out@[0] == c00);
            } else if i == 1 && j == 0 {
                assert(out@[1] == c10);
            } else if i == 0 && j == 1 {
                assert(out@[2] == c01);
            } else {
                assert(out@[3] == c11);
            }
        }
    }
    out
}

/// Entry `k` of an `nrows`-row column-major buffer lies on the diagonal of
/// its leading `nrows × nrows` block.
pub open spec fn on_diagonal(nrows: nat, ncols: nat, k: int) -> bool {
    exists|i: int| 0 <= i < nrows && #[trigger] (i * ncols + i) == k
}

/// Writes `one` on the diagonal of both `p` and `q` (entries `i·ncols + i`
/// for `i < nrows`), leaving every other entry as it was: on zeroed buffers
/// this makes both the identity, the starting point of the Padé pair.
pub fn set_identity2<T: Copy>(p: &mut Vec<T>, q: &mut Vec<T>, nrows: usize, ncols: usize, one: T)
    requires
        nrows <= ncols,
        nrows * ncols <= old(p)@.len(),
        nrows * ncols <= old(q)@.len(),
    ensures
        final(p)@.len() == old(p)@.len(),
        final(q)@.len() == old(q)@.len(),
        forall|i: int| 0 <= i < nrows ==> final(p)@[#[trigger] (i * ncols + i)] == one,
        forall|i: int| 0 <= i < nrows ==> final(q)@[#[trigger] (i * ncols + i)] == one,
        forall|k: int|
            0 <= k < old(p)@.len() && !on_diagonal(nrows as nat, ncols as nat, k) ==> #[trigger] final(p)@[k] == old(p)@[k],
        forall|k: int|
            0 <= k < old(q)@.len() && !on_diagonal(nrows as nat, ncols as nat, k) ==> #[trigger] final(q)@[k] == old(q)@[k],
{
    let p_len = p.len();
    let mut i: usize = 0;
    while i < nrows
        invariant
            i <= nrows <= ncols,
            nrows * ncols <= p_len,
            p_len == p@.len(),
            nrows * ncols <= p@.len(),
            nrows * ncols <= q@.len(),
            p@.len() == old(p)@.len(),
            q@.len() == old(q)@.len(),
            forall|r: int| 0 <= r < i ==> p@[#[trigger] (r * ncols + r)] == one,
            forall|r: int| 0 <= r < i ==> q@[#[trigger] (r * ncols + r)] == one,
            forall|k: int|
                0 <= k < p@.len() && !on_diagonal(i as nat, ncols as nat, k) ==> #[trigger] p@[k]
                    == old(p)@[k],
            forall|k: int|
                0 <= k < q@.len() && !on_diagonal(i as nat, ncols as nat, k) ==> #[trigger] q@[k]
                    == old(q)@[k],
        decreases nrows - i,
    {
        proof {
            assert(i * ncols + i < nrows * ncols) by (nonlinear_arith)
                requires
                    i < nrows <= ncols,
            ;
        }
        let d = i * ncols + i;
        p.set(d, one);
        q.set(d, one);
        proof {
            assert forall|r: int| 0 <= r < i + 1 implies p@[#[trigger] (r * ncols + r)] == one
                && q@[r * ncols + r] == one by {
                if r < i {
                    assert(r * ncols + r < i * ncols + i) by (nonlinear_arith)
                        requires
                            0 <= r < i,
                    ;
                }
            }
            assert forall|k: int|
                0 <= k < p@.len() && !on_diagonal((i + 1) as nat, ncols as nat, k) implies !on_diagonal(
                i as nat,
                ncols as nat,
                k,
            ) && k != d by {
                if on_diagonal(i as nat, ncols as nat, k) {
                    let r = choose|r: int| 0 <= r < i && #[trigger] (r * ncols + r) == k;
                    assert(0 <= r < i + 1 && r * ncols + r == k);
                }
                assert(0 <= i < i + 1 && i * ncols + i == d);
            }
            assert forall|k: int|
                0 <= k < q@.len() && !on_diagonal((i + 1) as nat, ncols as nat, k) implies !on_diagonal(
                i as nat,
                ncols as nat,
                k,
            ) && k != d by {
                if on_diagonal(i as nat, ncols as nat, k) {
                    let r = choose|r: int| 0 <= r < i && #[trigger] (r * ncols + r) == k;
                    assert(0 <= r < i + 1 && r * ncols + r == k);
                }
                assert(0 <= i < i + 1 && i * ncols + i == d);
            }
        }
        i = i + 1;
    }
}

} // verus!
