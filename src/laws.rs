use vstd::prelude::*;

use crate::tensor::{
    add_of, cols_of, dot, is_grid, product_of, rows_of, same_shape, scale_of, sub_of, transpose_of,
};

verus! {

/// Transposing twice gives back the original matrix.
pub proof fn law_transpose_involutive<T>(g: Seq<Seq<T>>)
    requires
        is_grid(g),
    ensures
        transpose_of(transpose_of(g)) == g,
{
    let t = transpose_of(g);
    assert(cols_of(t) == g.len());
    assert(transpose_of(t) =~~= g);
}

/// Matrix addition is commutative.
pub proof fn law_add_commutative(a: Seq<Seq<int>>, b: Seq<Seq<int>>)
    requires
        is_grid(a),
        is_grid(b),
        same_shape(a, b),
    ensures
        add_of(a, b) == add_of(b, a),
{
    assert(add_of(a, b) =~~= add_of(b, a));
}

/// Swapping the operands of a subtraction negates the result.
pub proof fn law_sub_antisymmetric(a: Seq<Seq<int>>, b: Seq<Seq<int>>)
    requires
        is_grid(a),
        is_grid(b),
        same_shape(a, b),
    ensures
        sub_of(a, b) == scale_of(sub_of(b, a), -1),
{
    assert(sub_of(a, b) =~~= scale_of(sub_of(b, a), -1));
}

/// The sum `f(0) + f(1) + ... + f(n - 1)`.
pub open spec fn sum_to(f: spec_fn(int) -> int, n: int) -> int
    decreases n,
{
    if n <= 0 {
        0
    } else {
        sum_to(f, n - 1) + f(n - 1)
    }
}

proof fn lemma_sum_ext(f: spec_fn(int) -> int, g: spec_fn(int) -> int, n: int)
    requires
        forall|x: int| 0 <= x < n ==> #[trigger] f(x) == g(x),
    ensures
        sum_to(f, n) == sum_to(g, n),
    decreases n,
{
    if n > 0 {
        lemma_sum_ext(f, g, n - 1);
    }
}

proof fn lemma_sum_zero(n: int)
    ensures
        sum_to(|x: int| 0, n) == 0,
    decreases n,
{
    if n > 0 {
        lemma_sum_zero(n - 1);
    }
}

proof fn lemma_sum_add(f: spec_fn(int) -> int, g: spec_fn(int) -> int, n: int)
    ensures
        sum_to(|x: int| f(x) + g(x), n) == sum_to(f, n) + sum_to(g, n),
    decreases n,
{
    if n > 0 {
        lemma_sum_add(f, g, n - 1);
    }
}

proof fn lemma_sum_scale_left(c: int, f: spec_fn(int) -> int, n: int)
    ensures
        sum_to(|x: int| c * f(x), n) == c * sum_to(f, n),
    decreases n,
{
    if n > 0 {
        lemma_sum_scale_left(c, f, n - 1);
        assert(c * (sum_to(f, n - 1) + f(n - 1)) == c * sum_to(f, n - 1) + c * f(n - 1))
            by (nonlinear_arith);
    }
}

proof fn lemma_sum_scale_right(f: spec_fn(int) -> int, c: int, n: int)
    ensures
        sum_to(|x: int| f(x) * c, n) == sum_to(f, n) * c,
    decreases n,
{
    if n > 0 {
        lemma_sum_scale_right(f, c, n - 1);
        assert((sum_to(f, n - 1) + f(n - 1)) * c == sum_to(f, n - 1) * c + f(n - 1) * c)
            by (nonlinear_arith);
    }
}

proof fn lemma_sum_swap(g: spec_fn(int, int) -> int, rows: int, cols: int)
    ensures
        sum_to(|j: int| sum_to(|k: int| g(j, k), cols), rows) == sum_to(
            |k: int| sum_to(|j: int| g(j, k), rows),
            cols,
        ),
    decreases rows,
{
    if rows > 0 {
        let outer = |j: int| sum_to(|k: int| g(j, k), cols);
        let whole = |k: int| sum_to(|j: int| g(j, k), rows);
        let prev = |k: int| sum_to(|j: int| g(j, k), rows - 1);
        let last = |k: int| g(rows - 1, k);
        lemma_sum_swap(g, rows - 1, cols);
        assert(sum_to(outer, rows) == sum_to(outer, rows - 1) + sum_to(last, cols));
        assert(sum_to(outer, rows - 1) == sum_to(prev, cols));
        lemma_sum_add(prev, last, cols);
        assert forall|k: int| 0 <= k < cols implies #[trigger] whole(k) == prev(k) + last(k) by {
            assert(sum_to(|j: int| g(j, k), rows) == sum_to(|j: int| g(j, k), rows - 1) + g(
                rows - 1,
                k,
            ));
        }
        lemma_sum_ext(whole, |k: int| prev(k) + last(k), cols);
    } else {
        lemma_sum_zero(cols);
        lemma_sum_ext(|k: int| sum_to(|j: int| g(j, k), rows), |k: int| 0, cols);
    }
}

proof fn lemma_dot_is_sum(a: Seq<Seq<int>>, b: Seq<Seq<int>>, i: int, j: int, k: int)
    ensures
        dot(a, b, i, j, k) == sum_to(|t: int| a[i][t] * b[t][j], k),
    decreases k,
{
    if k > 0 {
        lemma_dot_is_sum(a, b, i, j, k - 1);
    }
}

/// Matrix multiplication is associative.
pub proof fn law_product_associative(a: Seq<Seq<int>>, b: Seq<Seq<int>>, c: Seq<Seq<int>>)
    requires
        is_grid(a),
        is_grid(b),
        is_grid(c),
        cols_of(a) == rows_of(b),
        cols_of(b) == rows_of(c),
    ensures
        product_of(product_of(a, b), c) == product_of(a, product_of(b, c)),
{
    let x = product_of(a, b);
    let y = product_of(b, c);
    let n = b.len() as int;
    let p = c.len() as int;
    let lhs = product_of(x, c);
    let rhs = product_of(a, y);
    assert(cols_of(y) == cols_of(c));
    assert forall|i: int, l: int| 0 <= i < a.len() && 0 <= l < cols_of(c) implies lhs[i][l]
        == rhs[i][l] by {
        let g = |j: int, k: int| a[i][k] * b[k][j] * c[j][l];
        // Left side: sum over j of (sum over k of a b) c.
        lemma_dot_is_sum(x, c, i, l, p);
        assert forall|j: int| 0 <= j < p implies x[i][j] * c[j][l] == sum_to(
            |k: int| g(j, k),
            n,
        ) by {
            lemma_dot_is_sum(a, b, i, j, n);
            lemma_sum_scale_right(|k: int| a[i][k] * b[k][j], c[j][l], n);
            lemma_sum_ext(
                |k: int| (|k: int| a[i][k] * b[k][j])(k) * c[j][l],
                |k: int| g(j, k),
                n,
            );
        }
        lemma_sum_ext(
            |j: int| x[i][j] * c[j][l],
            |j: int| sum_to(|k: int| g(j, k), n),
            p,
        );
        // Right side: sum over k of a (sum over j of b c).
        lemma_dot_is_sum(a, y, i, l, n);
        assert forall|k: int| 0 <= k < n implies a[i][k] * y[k][l] == sum_to(
            |j: int| g(j, k),
            p,
        ) by {
            lemma_dot_is_sum(b, c, k, l, p);
            lemma_sum_scale_left(a[i][k], |j: int| b[k][j] * c[j][l], p);
            assert forall|j: int| 0 <= j < p implies a[i][k] * (b[k][j] * c[j][l]) == #[trigger] g(
                j,
                k,
            ) by {
                assert(a[i][k] * (b[k][j] * c[j][l]) == a[i][k] * b[k][j] * c[j][l])
                    by (nonlinear_arith);
            }
            lemma_sum_ext(
                |j: int| a[i][k] * (|j: int| b[k][j] * c[j][l])(j),
                |j: int| g(j, k),
                p,
            );
        }
        lemma_sum_ext(
            |k: int| a[i][k] * y[k][l],
            |k: int| sum_to(|j: int| g(j, k), p),
            n,
        );
        lemma_sum_swap(g, p, n);
    }
    assert(lhs =~~= rhs);
}

} // verus!
