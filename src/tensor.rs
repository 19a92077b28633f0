use vstd::prelude::*;
use vstd::string::StringExecFns;

use crate::error::{EncephalonError, ErrorKind};

verus! {

/// A grid is well formed when it has at least one row, its first row has at
/// least one element, and every row is as long as the first.
pub open spec fn is_grid<T>(g: Seq<Seq<T>>) -> bool {
    &&& g.len() >= 1
    &&& g[0].len() >= 1
    &&& forall|i: int| 0 <= i < g.len() ==> #[trigger] g[i].len() == g[0].len()
}

/// Number of rows of a grid.
pub open spec fn rows_of<T>(g: Seq<Seq<T>>) -> nat {
    g.len()
}

/// Number of columns of a grid (the length of its first row).
pub open spec fn cols_of<T>(g: Seq<Seq<T>>) -> nat {
    if g.len() == 0 { 0 } else { g[0].len() }
}

/// The grid with its axes swapped: row `i` of the result is column `i` of `g`.
pub open spec fn transpose_of<T>(g: Seq<Seq<T>>) -> Seq<Seq<T>> {
    Seq::new(cols_of(g), |i: int| Seq::new(g.len(), |j: int| g[j][i]))
}

/// Whether an integer fits in an `i64` element.
pub open spec fn in_i64(x: int) -> bool {
    i64::MIN <= x <= i64::MAX
}

/// Whether every element of a grid fits in an `i64`.
pub open spec fn fits(g: Seq<Seq<int>>) -> bool {
    forall|i: int, j: int| 0 <= i < g.len() && 0 <= j < g[i].len() ==> in_i64(#[trigger] g[i][j])
}

/// The integer values of a grid of `i64` elements.
pub open spec fn ints(g: Seq<Seq<i64>>) -> Seq<Seq<int>> {
    g.map_values(|r: Seq<i64>| r.map_values(|x: i64| x as int))
}

/// Two grids with the same number of rows and columns.
pub open spec fn same_shape<T, U>(a: Seq<Seq<T>>, b: Seq<Seq<U>>) -> bool {
    rows_of(a) == rows_of(b) && cols_of(a) == cols_of(b)
}

/// Elementwise sum.
pub open spec fn add_of(a: Seq<Seq<int>>, b: Seq<Seq<int>>) -> Seq<Seq<int>> {
    Seq::new(a.len(), |i: int| Seq::new(a[i].len(), |j: int| a[i][j] + b[i][j]))
}

/// Elementwise difference.
pub open spec fn sub_of(a: Seq<Seq<int>>, b: Seq<Seq<int>>) -> Seq<Seq<int>> {
    Seq::new(a.len(), |i: int| Seq::new(a[i].len(), |j: int| a[i][j] - b[i][j]))
}

/// Elementwise product.
pub open spec fn hadamard_of(a: Seq<Seq<int>>, b: Seq<Seq<int>>) -> Seq<Seq<int>> {
    Seq::new(a.len(), |i: int| Seq::new(a[i].len(), |j: int| a[i][j] * b[i][j]))
}

/// Every element multiplied by `c`.
pub open spec fn scale_of(a: Seq<Seq<int>>, c: int) -> Seq<Seq<int>> {
    Seq::new(a.len(), |i: int| Seq::new(a[i].len(), |j: int| c * a[i][j]))
}

/// The sum of the first `k` terms `a[i][t] * b[t][j]`.
pub open spec fn dot(a: Seq<Seq<int>>, b: Seq<Seq<int>>, i: int, j: int, k: int) -> int
    decreases k,
{
    if k <= 0 {
        0
    } else {
        dot(a, b, i, j, k - 1) + a[i][k - 1] * b[k - 1][j]
    }
}

/// The matrix product of `a` and `b`.
pub open spec fn product_of(a: Seq<Seq<int>>, b: Seq<Seq<int>>) -> Seq<Seq<int>> {
    Seq::new(a.len(), |i: int| Seq::new(cols_of(b), |j: int| dot(a, b, i, j, b.len() as int)))
}

/// Whether computing entry `(i, j)` of the product term by term stays within
/// `i64`: every term and every running sum fits.
pub open spec fn cell_fits(a: Seq<Seq<int>>, b: Seq<Seq<int>>, i: int, j: int) -> bool {
    forall|k: int|
        0 <= k < b.len() ==> in_i64(#[trigger] (a[i][k] * b[k][j])) && in_i64(dot(a, b, i, j, k + 1))
}

/// Whether the whole product can be computed within `i64`.
pub open spec fn product_fits(a: Seq<Seq<int>>, b: Seq<Seq<int>>) -> bool {
    forall|i: int, j: int| 0 <= i < a.len() && 0 <= j < cols_of(b) ==> #[trigger] cell_fits(a, b, i, j)
}

/// A grid with the columns `v` put in front of every row.
pub open spec fn prepend_of<T>(g: Seq<Seq<T>>, v: Seq<T>) -> Seq<Seq<T>> {
    Seq::new(g.len(), |i: int| v + g[i])
}

/// An `m` by `n` grid of zeros.
pub open spec fn zeros_of(m: nat, n: nat) -> Seq<Seq<int>> {
    Seq::new(m, |i: int| Seq::new(n, |j: int| 0))
}

/// The decimal digit characters, by value.
pub open spec fn digit_char(d: nat) -> char {
    seq!['0', '1', '2', '3', '4', '5', '6', '7', '8', '9'][d as int]
}

/// Base-ten digits of a natural number, most significant first, with no
/// leading zeros.
pub open spec fn digits_of(n: nat) -> Seq<char>
    decreases n,
{
    if n < 10 {
        seq![digit_char(n)]
    } else {
        digits_of(n / 10).push(digit_char(n % 10))
    }
}

/// Decimal text of an integer, with a leading `-` when it is negative.
pub open spec fn decimal_of(v: int) -> Seq<char> {
    if v < 0 {
        seq!['-'] + digits_of((-v) as nat)
    } else {
        digits_of(v as nat)
    }
}

/// Text of the first `k` elements of a row: each element followed by a space.
pub open spec fn row_text(r: Seq<int>, k: int) -> Seq<char>
    decreases k,
{
    if k <= 0 {
        Seq::empty()
    } else {
        row_text(r, k - 1) + decimal_of(r[k - 1]) + " "@
    }
}

/// Text of the first `k` rows: each row as `[ a b c ] `.
pub open spec fn rows_text(g: Seq<Seq<int>>, k: int) -> Seq<char>
    decreases k,
{
    if k <= 0 {
        Seq::empty()
    } else {
        rows_text(g, k - 1) + "[ "@ + row_text(g[k - 1], g[k - 1].len() as int) + "] "@
    }
}

/// The canonical rendering `Tensor(MxN) [ [ a b c ] [ d e f ] ]`.
pub open spec fn render_of(g: Seq<Seq<int>>) -> Seq<char> {
    "Tensor("@ + decimal_of(rows_of(g) as int) + "x"@ + decimal_of(cols_of(g) as int) + ") [ "@
        + rows_text(g, g.len() as int) + "]"@
}

/// Relies on `i128::to_string` (its `Display`): base ten, a leading `-` for
/// negative values, no leading zeros.
#[verifier::external_body]
fn decimal(v: i128) -> (r: String)
    ensures
        r@ == decimal_of(v as int),
{
    v.to_string()
}

/// The elementwise operations, as one private selector.
enum CellOp {
    Add,
    Sub,
    Mul,
    Scale(i64),
}

spec fn cell_op_of(op: CellOp, a: Seq<Seq<int>>, b: Seq<Seq<int>>) -> Seq<Seq<int>> {
    match op {
        CellOp::Add => add_of(a, b),
        CellOp::Sub => sub_of(a, b),
        CellOp::Mul => hadamard_of(a, b),
        CellOp::Scale(c) => scale_of(a, c as int),
    }
}

/// A dense two-dimensional matrix, stored row by row.
#[derive(Debug)]
pub struct Tensor<T> {
    pub mat: Vec<Vec<T>>,
}

impl<T> View for Tensor<T> {
    type V = Seq<Seq<T>>;

    open spec fn view(&self) -> Seq<Seq<T>> {
        self.mat@.map_values(|r: Vec<T>| r@)
    }
}

impl<T: Copy> Tensor<T> {
    /// Every matrix that the library hands out is rectangular and non-empty.
    pub open spec fn wf(&self) -> bool {
        is_grid(self@)
    }

    /// Builds a matrix from its rows; the rows must be non-empty and equally long.
    pub fn new(mat: Vec<Vec<T>>) -> (r: Result<Self, EncephalonError>)
        ensures
            r is Ok <==> is_grid(mat@.map_values(|row: Vec<T>| row@)),
            r matches Ok(t) ==> t.wf() && t@ == mat@.map_values(|row: Vec<T>| row@),
            r matches Err(e) ==> e.kind == ErrorKind::Shape,
    {
        let ghost g = mat@.map_values(|row: Vec<T>| row@);
        if mat.len() == 0 {
            return Err(EncephalonError::new(ErrorKind::Shape, "Tensor should have at least one row"));
        }
        let n = mat[0].len();
        if n == 0 {
            return Err(EncephalonError::new(ErrorKind::Shape, "Tensor should have at least one element in each row"));
        }
        let mut i: usize = 0;
        while i < mat.len()
            invariant
                g == mat@.map_values(|row: Vec<T>| row@),
                i <= mat.len(),
                n == g[0].len(),
                forall|k: int| 0 <= k < i ==> #[trigger] g[k].len() == n,
            decreases mat.len() - i,
        {
            if mat[i].len() != n {
                assert(g[i as int].len() != g[0].len());
                return Err(EncephalonError::new(ErrorKind::Shape, "Tensor rows don't all have the same length"));
            }
            i += 1;
        }
        Ok(Tensor { mat })
    }

    /// Number of rows.
    pub fn rows(&self) -> (r: usize)
        requires
            self.wf(),
        ensures
            r == rows_of(self@),
    {
        self.mat.len()
    }

    /// Number of columns.
    pub fn cols(&self) -> (r: usize)
        requires
            self.wf(),
        ensures
            r == cols_of(self@),
    {
        self.mat[0].len()
    }

    /// The transposed matrix.
    pub fn transpose(&self) -> (r: Self)
        requires
            self.wf(),
        ensures
            r.wf(),
            r@ == transpose_of(self@),
    {
        let m = self.mat.len();
        let n = self.mat[0].len();
        let mut out: Vec<Vec<T>> = Vec::with_capacity(n);
        let mut x: usize = 0;
        while x < n
            invariant
                self.wf(),
                m == rows_of(self@),
                n == cols_of(self@),
                x <= n,
                out@.len() == x,
                forall|i: int| 0 <= i < x ==> #[trigger] out@[i]@ == transpose_of(self@)[i],
            decreases n - x,
        {
            let mut row: Vec<T> = Vec::with_capacity(m);
            let mut y: usize = 0;
            while y < m
                invariant
                    self.wf(),
                    m == rows_of(self@),
                    n == cols_of(self@),
                    x < n,
                    y <= m,
                    row@.len() == y,
                    forall|j: int| 0 <= j < y ==> #[trigger] row@[j] == self@[j][x as int],
                decreases m - y,
            {
                assert(self@[y as int].len() == n);
                row.push(self.mat[y][x]);
                y += 1;
            }
            assert(row@ == transpose_of(self@)[x as int]);
            out.push(row);
            x += 1;
        }
        let r = Tensor { mat: out };
        assert(r@ == transpose_of(self@));
        r
    }

    /// A deep copy: the result shares no storage with `self`.
    pub fn clone(&self) -> (r: Self)
        requires
            self.wf(),
        ensures
            r.wf(),
            r@ == self@,
    {
        let mut mat: Vec<Vec<T>> = Vec::with_capacity(self.mat.len());
        let mut i: usize = 0;
        while i < self.mat.len()
            invariant
                i <= self.mat@.len(),
                mat@.len() == i,
                forall|k: int| 0 <= k < i ==> #[trigger] mat@[k]@ == self@[k],
            decreases self.mat@.len() - i,
        {
            let src = &self.mat[i];
            let mut row: Vec<T> = Vec::with_capacity(src.len());
            let mut j: usize = 0;
            while j < src.len()
                invariant
                    j <= src@.len(),
                    row@ == src@.subrange(0, j as int),
                decreases src@.len() - j,
            {
                row.push(src[j]);
                j += 1;
                assert(row@ =~= src@.subrange(0, j as int));
            }
            assert(row@ =~= src@);
            mat.push(row);
            i += 1;
        }
        let r = Tensor { mat };
        assert(r@ =~= self@);
        r
    }

    /// A new matrix with `elems` inserted as leading columns of every row.
    pub fn insert_cols_front(&self, elems: Vec<T>) -> (r: Self)
        requires
            self.wf(),
        ensures
            r.wf(),
            r@ == prepend_of(self@, elems@),
    {
        let mut mat: Vec<Vec<T>> = Vec::with_capacity(self.mat.len());
        let mut i: usize = 0;
        while i < self.mat.len()
            invariant
                self.wf(),
                i <= self.mat@.len(),
                mat@.len() == i,
                forall|k: int| 0 <= k < i ==> #[trigger] mat@[k]@ == elems@ + self@[k],
            decreases self.mat@.len() - i,
        {
            let src = &self.mat[i];
            let mut row: Vec<T> = Vec::new();
            let mut j: usize = 0;
            while j < elems.len()
                invariant
                    j <= elems@.len(),
                    row@ == elems@.subrange(0, j as int),
                decreases elems@.len() - j,
            {
                row.push(elems[j]);
                j += 1;
                assert(row@ =~= elems@.subrange(0, j as int));
            }
            let mut j: usize = 0;
            while j < src.len()
                invariant
                    j <= src@.len(),
                    row@ == elems@ + src@.subrange(0, j as int),
                decreases src@.len() - j,
            {
                row.push(src[j]);
                j += 1;
                assert(row@ =~= elems@ + src@.subrange(0, j as int));
            }
            assert(row@ =~= elems@ + src@);
            mat.push(row);
            i += 1;
        }
        let r = Tensor { mat };
        assert(r@ =~= prepend_of(self@, elems@));
        assert(r@[0].len() >= 1);
        assert(forall|k: int| 0 <= k < r@.len() ==> #[trigger] r@[k].len() == r@[0].len()) by {
            assert(forall|k: int| 0 <= k < r@.len() ==> #[trigger] self@[k].len() == self@[0].len());
        }
        r
    }

    /// The rows `start .. end` as a matrix of their own.
    pub fn select_rows(&self, start: usize, end: usize) -> (r: Self)
        requires
            self.wf(),
            start < end <= rows_of(self@),
        ensures
            r.wf(),
            r@ == self@.subrange(start as int, end as int),
    {
        let mut mat: Vec<Vec<T>> = Vec::with_capacity(end - start);
        let mut i: usize = start;
        while i < end
            invariant
                self.wf(),
                start <= i <= end <= rows_of(self@),
                mat@.len() == i - start,
                forall|k: int| 0 <= k < i - start ==> #[trigger] mat@[k]@ == self@[start + k],
            decreases end - i,
        {
            let src = &self.mat[i];
            let mut row: Vec<T> = Vec::with_capacity(src.len());
            let mut j: usize = 0;
            while j < src.len()
                invariant
                    j <= src@.len(),
                    row@ == src@.subrange(0, j as int),
                decreases src@.len() - j,
            {
                row.push(src[j]);
                j += 1;
                assert(row@ =~= src@.subrange(0, j as int));
            }
            assert(row@ =~= src@);
            mat.push(row);
            i += 1;
        }
        let r = Tensor { mat };
        assert(r@ =~= self@.subrange(start as int, end as int));
        r
    }
}


impl Tensor<i64> {
    /// An `m` by `n` matrix of zeros; both dimensions must be positive.
    pub fn zeros(m: usize, n: usize) -> (r: Result<Self, EncephalonError>)
        ensures
            r is Ok <==> m > 0 && n > 0,
            r matches Ok(t) ==> t.wf() && ints(t@) == zeros_of(m as nat, n as nat),
            r matches Err(e) ==> e.kind == ErrorKind::Shape,
    {
        if m == 0 || n == 0 {
            return Err(EncephalonError::new(ErrorKind::Shape, "Cannot create tensor with zero dimension(s)"));
        }
        let mut mat: Vec<Vec<i64>> = Vec::with_capacity(m);
        let mut i: usize = 0;
        while i < m
            invariant
                i <= m,
                mat@.len() == i,
                forall|k: int| 0 <= k < i ==> #[trigger] mat@[k]@ == Seq::new(n as nat, |j: int| 0i64),
            decreases m - i,
        {
            let mut row: Vec<i64> = Vec::with_capacity(n);
            let mut j: usize = 0;
            while j < n
                invariant
                    j <= n,
                    row@ == Seq::new(j as nat, |t: int| 0i64),
                decreases n - j,
            {
                row.push(0);
                j += 1;
                assert(row@ =~= Seq::new(j as nat, |t: int| 0i64));
            }
            mat.push(row);
            i += 1;
        }
        let r = Tensor { mat };
        assert(ints(r@) =~~= zeros_of(m as nat, n as nat));
        Ok(r)
    }

    /// The canonical text of the matrix, e.g. `Tensor(2x3) [ [ 1 2 3 ] [ 4 5 6 ] ]`.
    pub fn to_string(&self) -> (r: String)
        requires
            self.wf(),
        ensures
            r@ == render_of(ints(self@)),
    {
        let ghost g = ints(self@);
        assert(rows_of(g) == self.mat@.len() && cols_of(g) == self.mat@[0]@.len());
        let mut out = String::from_str("Tensor(");
        let rows_txt = decimal(self.mat.len() as i128);
        out.append(rows_txt.as_str());
        out.append("x");
        let cols_txt = decimal(self.mat[0].len() as i128);
        out.append(cols_txt.as_str());
        out.append(") [ ");
        let ghost head = out@;
        let mut i: usize = 0;
        while i < self.mat.len()
            invariant
                self.wf(),
                g == ints(self@),
                i <= self.mat@.len(),
                out@ == head + rows_text(g, i as int),
            decreases self.mat@.len() - i,
        {
            let row = &self.mat[i];
            assert(0 <= i < g.len());
            assert(g[i as int] == row@.map_values(|x: i64| x as int));
            out.append("[ ");
            let ghost row_head = out@;
            let mut j: usize = 0;
            while j < row.len()
                invariant
                    j <= row@.len(),
                    g[i as int] == row@.map_values(|x: i64| x as int),
                    out@ == row_head + row_text(g[i as int], j as int),
                decreases row@.len() - j,
            {
                let cell = decimal(row[j] as i128);
                out.append(cell.as_str());
                out.append(" ");
                assert(row_text(g[i as int], j + 1) == row_text(g[i as int], j as int) + decimal_of(
                    g[i as int][j as int],
                ) + " "@);
                assert(out@ =~= row_head + row_text(g[i as int], j + 1));
                j += 1;
            }
            out.append("] ");
            assert(out@ =~= head + rows_text(g, i + 1));
            i += 1;
        }
        out.append("]");
        assert(out@ =~= render_of(g));
        out
    }

    /// Applies `op` cell by cell with checked arithmetic; `None` when a cell
    /// does not fit in `i64`.
    fn map_cells(&self, other: &Self, op: CellOp) -> (r: Option<Self>)
        requires
            self.wf(),
            other.wf(),
            same_shape(self@, other@),
        ensures
            r is Some <==> fits(cell_op_of(op, ints(self@), ints(other@))),
            r matches Some(t) ==> t.wf() && ints(t@) == cell_op_of(op, ints(self@), ints(other@)),
    {
        let ghost c = cell_op_of(op, ints(self@), ints(other@));
        let m = self.mat.len();
        let n = self.mat[0].len();
        assert(c.len() == m);
        assert(forall|i: int| 0 <= i < m ==> (#[trigger] c[i]).len() == n);
        let mut out: Vec<Vec<i64>> = Vec::with_capacity(m);
        let mut i: usize = 0;
        while i < m
            invariant
                self.wf(),
                other.wf(),
                same_shape(self@, other@),
                m == rows_of(self@),
                n == cols_of(self@),
                c == cell_op_of(op, ints(self@), ints(other@)),
                c.len() == m,
                forall|k: int| 0 <= k < m ==> (#[trigger] c[k]).len() == n,
                i <= m,
                out@.len() == i,
                forall|k: int| 0 <= k < i ==> (#[trigger] out@[k]@).len() == n,
                forall|k: int, j: int|
                    0 <= k < i && 0 <= j < n ==> out@[k]@[j] as int == #[trigger] c[k][j],
            decreases m - i,
        {
            assert(self@[i as int].len() == n && other@[i as int].len() == n);
            let mut row: Vec<i64> = Vec::with_capacity(n);
            let mut j: usize = 0;
            while j < n
                invariant
                    self.wf(),
                    other.wf(),
                    same_shape(self@, other@),
                    m == rows_of(self@),
                    n == cols_of(self@),
                    self@[i as int].len() == n,
                    other@[i as int].len() == n,
                    c == cell_op_of(op, ints(self@), ints(other@)),
                    i < m,
                    j <= n,
                    row@.len() == j,
                    forall|t: int| 0 <= t < j ==> row@[t] as int == #[trigger] c[i as int][t],
                decreases n - j,
            {
                let x = self.mat[i][j];
                let y = other.mat[i][j];
                let v = match op {
                    CellOp::Add => x.checked_add(y),
                    CellOp::Sub => x.checked_sub(y),
                    CellOp::Mul => x.checked_mul(y),
                    CellOp::Scale(s) => s.checked_mul(x),
                };
                match v {
                    Some(z) => {
                        row.push(z);
                    },
                    None => {
                        assert(!in_i64(c[i as int][j as int]));
                        return None;
                    },
                }
                j += 1;
            }
            out.push(row);
            i += 1;
        }
        let r = Tensor { mat: out };
        assert(ints(r@) =~~= c);
        Some(r)
    }

    /// Elementwise sum; the shapes must agree.
    pub fn add(&self, other: &Self) -> (r: Result<Self, EncephalonError>)
        requires
            self.wf(),
            other.wf(),
        ensures
            r is Ok <==> same_shape(self@, other@) && fits(add_of(ints(self@), ints(other@))),
            r matches Ok(t) ==> t.wf() && ints(t@) == add_of(ints(self@), ints(other@)),
            r matches Err(e) ==> e.kind == (if same_shape(self@, other@) {
                ErrorKind::Overflow
            } else {
                ErrorKind::Shape
            }),
    {
        if self.rows() != other.rows() || self.cols() != other.cols() {
            return Err(EncephalonError::new(ErrorKind::Shape, "Tried to add matrices of unidentical dimensions"));
        }
        match self.map_cells(other, CellOp::Add) {
            Some(t) => Ok(t),
            None => Err(EncephalonError::new(ErrorKind::Overflow, "Element does not fit in i64")),
        }
    }

    /// Elementwise difference; the shapes must agree.
    pub fn sub(&self, other: &Self) -> (r: Result<Self, EncephalonError>)
        requires
            self.wf(),
            other.wf(),
        ensures
            r is Ok <==> same_shape(self@, other@) && fits(sub_of(ints(self@), ints(other@))),
            r matches Ok(t) ==> t.wf() && ints(t@) == sub_of(ints(self@), ints(other@)),
            r matches Err(e) ==> e.kind == (if same_shape(self@, other@) {
                ErrorKind::Overflow
            } else {
                ErrorKind::Shape
            }),
    {
        if self.rows() != other.rows() || self.cols() != other.cols() {
            return Err(EncephalonError::new(ErrorKind::Shape, "Tried to subtract matrices of unidentical dimensions"));
        }
        match self.map_cells(other, CellOp::Sub) {
            Some(t) => Ok(t),
            None => Err(EncephalonError::new(ErrorKind::Overflow, "Element does not fit in i64")),
        }
    }

    /// Elementwise product; the shapes must agree.
    pub fn mult_elemwise(&self, other: &Self) -> (r: Result<Self, EncephalonError>)
        requires
            self.wf(),
            other.wf(),
        ensures
            r is Ok <==> same_shape(self@, other@) && fits(hadamard_of(ints(self@), ints(other@))),
            r matches Ok(t) ==> t.wf() && ints(t@) == hadamard_of(ints(self@), ints(other@)),
            r matches Err(e) ==> e.kind == (if same_shape(self@, other@) {
                ErrorKind::Overflow
            } else {
                ErrorKind::Shape
            }),
    {
        if self.rows() != other.rows() || self.cols() != other.cols() {
            return Err(EncephalonError::new(ErrorKind::Shape, "Tensors should have identical dimensions for elemwise multiplication"));
        }
        match self.map_cells(other, CellOp::Mul) {
            Some(t) => Ok(t),
            None => Err(EncephalonError::new(ErrorKind::Overflow, "Element does not fit in i64")),
        }
    }

    /// Every element multiplied by `val`.
    pub fn mult_scalar(&self, val: i64) -> (r: Result<Self, EncephalonError>)
        requires
            self.wf(),
        ensures
            r is Ok <==> fits(scale_of(ints(self@), val as int)),
            r matches Ok(t) ==> t.wf() && ints(t@) == scale_of(ints(self@), val as int),
            r matches Err(e) ==> e.kind == ErrorKind::Overflow,
    {
        match self.map_cells(self, CellOp::Scale(val)) {
            Some(t) => Ok(t),
            None => Err(EncephalonError::new(ErrorKind::Overflow, "Element does not fit in i64")),
        }
    }

    /// The matrix product `self * other`; the column count of `self` must equal
    /// the row count of `other`.
    pub fn mult(&self, other: &Self) -> (r: Result<Self, EncephalonError>)
        requires
            self.wf(),
            other.wf(),
        ensures
            r is Ok <==> cols_of(self@) == rows_of(other@) && product_fits(ints(self@), ints(other@)),
            r matches Ok(t) ==> t.wf() && ints(t@) == product_of(ints(self@), ints(other@)),
            r matches Err(e) ==> e.kind == (if cols_of(self@) == rows_of(other@) {
                ErrorKind::Overflow
            } else {
                ErrorKind::Shape
            }),
    {
        let m = self.mat.len();
        let n = self.mat[0].len();
        let p = other.mat[0].len();
        if n != other.mat.len() {
            return Err(EncephalonError::new(ErrorKind::Shape, "Tried to multiply incompatible matrices"));
        }
        let ghost a = ints(self@);
        let ghost b = ints(other@);
        let mut out: Vec<Vec<i64>> = Vec::with_capacity(m);
        let mut i: usize = 0;
        while i < m
            invariant
                self.wf(),
                other.wf(),
                a == ints(self@),
                b == ints(other@),
                m == rows_of(self@),
                n == cols_of(self@),
                n == rows_of(other@),
                p == cols_of(other@),
                i <= m,
                out@.len() == i,
                forall|k: int| 0 <= k < i ==> (#[trigger] out@[k]@).len() == p,
                forall|k: int, j: int|
                    0 <= k < i && 0 <= j < p ==> out@[k]@[j] as int == #[trigger] dot(a, b, k, j, n as int),
                forall|k: int, j: int| 0 <= k < i && 0 <= j < p ==> #[trigger] cell_fits(a, b, k, j),
            decreases m - i,
        {
            let mut row: Vec<i64> = Vec::with_capacity(p);
            let mut j: usize = 0;
            while j < p
                invariant
                    self.wf(),
                    other.wf(),
                    a == ints(self@),
                    b == ints(other@),
                    m == rows_of(self@),
                    n == cols_of(self@),
                    n == rows_of(other@),
                    p == cols_of(other@),
                    i < m,
                    j <= p,
                    row@.len() == j,
                    forall|t: int| 0 <= t < j ==> row@[t] as int == #[trigger] dot(a, b, i as int, t, n as int),
                    forall|t: int| 0 <= t < j ==> #[trigger] cell_fits(a, b, i as int, t),
                decreases p - j,
            {
                let mut val: i64 = 0;
                let mut k: usize = 0;
                while k < n
                    invariant
                        self.wf(),
                        other.wf(),
                        a == ints(self@),
                        b == ints(other@),
                        m == rows_of(self@),
                        n == cols_of(self@),
                        n == rows_of(other@),
                        p == cols_of(other@),
                        i < m,
                        j < p,
                        k <= n,
                        val as int == dot(a, b, i as int, j as int, k as int),
                        forall|t: int|
                            0 <= t < k ==> in_i64(#[trigger] (a[i as int][t] * b[t][j as int]))
                                && in_i64(dot(a, b, i as int, j as int, t + 1)),
                    decreases n - k,
                {
                    assert(self@[i as int].len() == n && other@[k as int].len() == p);
                    let x = self.mat[i][k];
                    let y = other.mat[k][j];
                    assert(a[i as int][k as int] == x as int && b[k as int][j as int] == y as int);
                    let prod = match x.checked_mul(y) {
                        Some(z) => z,
                        None => {
                            assert(!cell_fits(a, b, i as int, j as int));
                            return Err(EncephalonError::new(ErrorKind::Overflow, "Element does not fit in i64"));
                        },
                    };
                    val = match val.checked_add(prod) {
                        Some(z) => z,
                        None => {
                            assert(!in_i64(dot(a, b, i as int, j as int, k as int + 1)));
                            assert(!cell_fits(a, b, i as int, j as int));
                            return Err(EncephalonError::new(ErrorKind::Overflow, "Element does not fit in i64"));
                        },
                    };
                    k += 1;
                }
                row.push(val);
                j += 1;
            }
            out.push(row);
            i += 1;
        }
        let r = Tensor { mat: out };
        assert(ints(r@) =~~= product_of(a, b));
        Ok(r)
    }
}

impl PartialEq for Tensor<i64> {
    /// Exact equality of the element grids.
    fn eq(&self, other: &Self) -> (r: bool) {
        if self.mat.len() != other.mat.len() {
            assert(self@.len() != other@.len());
            return false;
        }
        let mut i: usize = 0;
        while i < self.mat.len()
            invariant
                self.mat@.len() == other.mat@.len(),
                i <= self.mat@.len(),
                forall|k: int| 0 <= k < i ==> #[trigger] self@[k] == other@[k],
            decreases self.mat@.len() - i,
        {
            let a = &self.mat[i];
            let b = &other.mat[i];
            assert(self@[i as int] == a@ && other@[i as int] == b@);
            if a.len() != b.len() {
                assert(self@[i as int].len() != other@[i as int].len());
                return false;
            }
            let mut j: usize = 0;
            while j < a.len()
                invariant
                    i < self.mat@.len(),
                    self@[i as int] == a@,
                    other@[i as int] == b@,
                    a@.len() == b@.len(),
                    j <= a@.len(),
                    forall|t: int| 0 <= t < j ==> a@[t] == b@[t],
                decreases a@.len() - j,
            {
                if a[j] != b[j] {
                    assert(self@[i as int][j as int] != other@[i as int][j as int]);
                    return false;
                }
                j += 1;
            }
            assert(a@ =~= b@);
            i += 1;
        }
        assert(self@ =~= other@);
        true
    }
}

impl vstd::std_specs::cmp::PartialEqSpecImpl for Tensor<i64> {
    open spec fn obeys_eq_spec() -> bool {
        true
    }

    open spec fn eq_spec(&self, other: &Self) -> bool {
        self@ == other@
    }
}

} // verus!
