//! The triangular lattice of barycentric sample points used to render a
//! three-color blend. A triangle of side `n` holds the index pairs `(i, j)`
//! with `i + j < n`; the weights of the three corners at such a point are
//! `i / (n - 1)`, `j / (n - 1)` and `(n - 1 - i - j) / (n - 1)`.
use vstd::prelude::*;

verus! {

/// Number of points in the first `rows` rows of the triangle of side `n`:
/// row `i` holds `n - i` points.
pub open spec fn rows_len(n: int, rows: int) -> int
    decreases rows,
{
    if rows <= 0 {
        0
    } else {
        rows_len(n, rows - 1) + (n - (rows - 1))
    }
}

/// Row `i` of the triangle of side `n`: `(i, 0), (i, 1), ..., (i, n - i - 1)`.
pub open spec fn lattice_row(n: int, i: int) -> Seq<(usize, usize)> {
    Seq::new((n - i) as nat, |j: int| (i as usize, j as usize))
}

/// The first `rows` rows of the triangle of side `n`, one after the other.
pub open spec fn lattice_rows(n: int, rows: int) -> Seq<(usize, usize)>
    decreases rows,
{
    if rows <= 0 {
        Seq::empty()
    } else {
        lattice_rows(n, rows - 1) + lattice_row(n, rows - 1)
    }
}

/// `p` comes before `q` in row-major order.
pub open spec fn lex_before(p: (usize, usize), q: (usize, usize)) -> bool {
    p.0 < q.0 || (p.0 == q.0 && p.1 < q.1)
}

proof fn lemma_rows_len_monotone(n: int, a: int, b: int)
    requires
        0 <= a <= b <= n,
    ensures
        rows_len(n, a) <= rows_len(n, b),
    decreases b - a,
{
    if a < b {
        lemma_rows_len_monotone(n, a, b - 1);
        assert(rows_len(n, b) == rows_len(n, b - 1) + (n - (b - 1)));
    }
}

proof fn lemma_rows_len_closed(n: int, rows: int)
    requires
        0 <= rows,
    ensures
        2 * rows_len(n, rows) == rows * (2 * n - rows + 1),
    decreases rows,
{
    if rows > 0 {
        lemma_rows_len_closed(n, rows - 1);
        assert(rows_len(n, rows) == rows_len(n, rows - 1) + (n - (rows - 1)));
        assert(2 * rows_len(n, rows) == rows * (2 * n - rows + 1)) by (nonlinear_arith)
            requires
                2 * rows_len(n, rows - 1) == (rows - 1) * (2 * n - (rows - 1) + 1),
                rows_len(n, rows) == rows_len(n, rows - 1) + (n - (rows - 1)),
        ;
    } else {
        assert(rows_len(n, rows) == 0);
    }
}

proof fn lemma_lattice_rows(n: int, rows: int)
    requires
        0 <= rows <= n <= usize::MAX,
    ensures
        lattice_rows(n, rows).len() == rows_len(n, rows),
        forall|k: int|
            0 <= k < lattice_rows(n, rows).len() ==> {
                let p = #[trigger] lattice_rows(n, rows)[k];
                p.0 < rows && p.0 + p.1 < n
            },
        forall|k1: int, k2: int|
            0 <= k1 < k2 < lattice_rows(n, rows).len() ==> lex_before(
                #[trigger] lattice_rows(n, rows)[k1],
                #[trigger] lattice_rows(n, rows)[k2],
            ),
        forall|i: int, j: int|
            0 <= i < rows && 0 <= j && i + j < n ==> #[trigger] lattice_rows(n, rows)[rows_len(
                n,
                i,
            ) + j] == (i as usize, j as usize),
    decreases rows,
{
    if rows > 0 {
        let r = rows - 1;
        lemma_lattice_rows(n, r);
        let prev = lattice_rows(n, r);
        let row = lattice_row(n, r);
        let all = lattice_rows(n, rows);
        assert(all == prev + row);
        assert forall|k: int| 0 <= k < all.len() implies {
            let p = #[trigger] all[k];
            p.0 < rows && p.0 + p.1 < n
        } by {
            if k >= prev.len() {
                assert(all[k] == row[k - prev.len()]);
            } else {
                assert(all[k] == prev[k]);
            }
        }
        assert forall|k1: int, k2: int| 0 <= k1 < k2 < all.len() implies lex_before(
            #[trigger] all[k1],
            #[trigger] all[k2],
        ) by {
            if k1 >= prev.len() {
                assert(all[k1] == row[k1 - prev.len()]);
                assert(all[k2] == row[k2 - prev.len()]);
            } else if k2 >= prev.len() {
                assert(all[k1] == prev[k1]);
                assert(all[k2] == row[k2 - prev.len()]);
            } else {
                assert(all[k1] == prev[k1]);
                assert(all[k2] == prev[k2]);
            }
        }
        assert forall|i: int, j: int| 0 <= i < rows && 0 <= j && i + j < n implies #[trigger] all[rows_len(
            n,
            i,
        ) + j] == (i as usize, j as usize) by {
            if i < r {
                lemma_rows_len_monotone(n, i + 1, r);
                lemma_rows_len_monotone(n, 0, i);
                assert(rows_len(n, i + 1) == rows_len(n, i) + (n - i));
                assert(all[rows_len(n, i) + j] == prev[rows_len(n, i) + j]);
            } else {
                lemma_rows_len_monotone(n, 0, i);
                assert(all[rows_len(n, i) + j] == row[j]);
            }
        }
    }
}

/// All index pairs `(i, j)` with `i + j < n`, row by row: first every pair
/// with `i == 0` by increasing `j`, then those with `i == 1`, and so on.
/// Pair `(i, j)` stands at position `rows_len(n, i) + j`, and there are
/// `n * (n + 1) / 2` of them.
pub fn triangle_lattice(n: usize) -> (r: Vec<(usize, usize)>)
    ensures
        r@ == lattice_rows(n as int, n as int),
        2 * r@.len() == n * (n + 1),
        forall|k: int| 0 <= k < r@.len() ==> #[trigger] r@[k].0 + r@[k].1 < n,
        forall|k1: int, k2: int|
            0 <= k1 < k2 < r@.len() ==> lex_before(#[trigger] r@[k1], #[trigger] r@[k2]),
        forall|i: int, j: int|
            0 <= i && 0 <= j && i + j < n ==> #[trigger] r@[rows_len(n as int, i) + j] == (
                i as usize,
                j as usize,
            ),
{
    let mut v: Vec<(usize, usize)> = Vec::new();
    let mut i: usize = 0;
    while i < n
        invariant
            i <= n,
            v@ == lattice_rows(n as int, i as int),
        decreases n - i,
    {
        let mut j: usize = 0;
        while j < n - i
            invariant
                i < n,
                j <= n - i,
                v@ == lattice_rows(n as int, i as int) + lattice_row(n as int, i as int).take(
                    j as int,
                ),
            decreases n - i - j,
        {
            v.push((i, j));
            j += 1;
            assert(lattice_row(n as int, i as int).take(j as int) == lattice_row(
                n as int,
                i as int,
            ).take(j - 1) + seq![(i, (j - 1) as usize)]);
        }
        assert(lattice_row(n as int, i as int).take((n - i) as int) == lattice_row(
            n as int,
            i as int,
        ));
        i += 1;
    }
    proof {
        lemma_lattice_rows(n as int, n as int);
        lemma_rows_len_closed(n as int, n as int);
    }
    v
}

} // verus!
