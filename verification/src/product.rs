//! What a configured matrix product reads and writes.
//!
//! The library keeps matrices column by column: entry `(i, j)` of a matrix with
//! leading dimension `ld` lies at `i + j * ld`. It computes, for every number
//! `q` of the batch, `C = op(A) * op(B)`, where `op` transposes or does nothing.

use crate::layout::Layout;
use crate::matmul::{batch_stride, operand_form, HipblasMatmulConfig, HipblasOperation};
use vstd::prelude::*;

verus! {

/// Where entry `(i, j)` of `op(X)` lies, from the start of `X`.
pub open spec fn op_index(op: HipblasOperation, ld: int, i: int, j: int) -> int {
    match op {
        HipblasOperation::NoTranspose => i + j * ld,
        HipblasOperation::Transpose => j + i * ld,
    }
}

impl HipblasMatmulConfig {
    /// Where entry `(i, p)` of the `q`-th `op(A)` is read.
    pub open spec fn a_index(self, q: int, i: int, p: int) -> int {
        q * self.stride_a + op_index(self.trans_a, self.lda as int, i, p)
    }

    /// Where entry `(p, j)` of the `q`-th `op(B)` is read.
    pub open spec fn b_index(self, q: int, p: int, j: int) -> int {
        q * self.stride_b + op_index(self.trans_b, self.ldb as int, p, j)
    }

    /// Where entry `(i, j)` of the `q`-th `C` is written.
    pub open spec fn c_index(self, q: int, i: int, j: int) -> int {
        q * self.stride_c + (i + j * self.ldc)
    }

    /// The places whose products are added up for entry `(i, j)` of the `q`-th
    /// `C`: for each term, where its factors are read in `A` and in `B`.
    pub open spec fn terms(self, q: int, i: int, j: int) -> Seq<(int, int)> {
        Seq::new(self.k as nat, |p: int| (self.a_index(q, i, p), self.b_index(q, p, j)))
    }
}

impl Layout {
    /// The layout holds `b` matrices of `rows` rows and `cols` columns.
    pub open spec fn holds(&self, b: nat, rows: nat, cols: nat) -> bool {
        &&& self.wf()
        &&& 2 <= self.rank() <= 4
        &&& self.dims@[self.rank() - 2] == rows
        &&& self.dims@[self.rank() - 1] == cols
        &&& b == if self.rank() == 2 {
            1
        } else if self.rank() == 3 {
            self.dims@[0] as int
        } else {
            self.dims@[0] * self.dims@[1]
        }
    }

    /// Where the `q`-th matrix begins, from the first element on.
    pub open spec fn matrix_offset(&self, q: int) -> int {
        if self.rank() == 2 {
            0
        } else if self.rank() == 3 {
            q * self.stride@[0]
        } else {
            (q / self.dims@[1] as int) * self.stride@[0] + (q % self.dims@[1] as int)
                * self.stride@[1]
        }
    }

    /// Where the element at row `r` and column `c` of the `q`-th matrix lies.
    pub open spec fn element_offset(&self, q: int, r: int, c: int) -> int {
        self.start_offset + self.matrix_offset(q) + r * self.stride@[self.stride@.len() - 2] + c
            * self.stride@[self.stride@.len() - 1]
    }

    /// The elements lie densely, the last dimension running fastest.
    pub open spec fn contiguous(&self) -> bool {
        &&& self.wf()
        &&& self.rank() > 0 ==> self.stride@[self.rank() - 1] == 1
        &&& forall|i: int|
            0 <= i < self.rank() - 1 ==> (#[trigger] self.stride@[i]) == self.stride@[i + 1]
                * self.dims@[i + 1]
    }

    /// The matrices are those of a contiguous layout, seen with rows and columns swapped.
    pub open spec fn contiguous_transposed(&self) -> bool {
        let rank = self.rank();
        &&& self.wf()
        &&& rank >= 2
        &&& self.stride@[rank - 2] == 1
        &&& self.stride@[rank - 1] == self.dims@[rank - 2]
        &&& rank > 2 ==> self.stride@[rank - 3] == self.dims@[rank - 2] * self.dims@[rank - 1]
        &&& forall|i: int|
            0 <= i < rank - 3 ==> (#[trigger] self.stride@[i]) == self.stride@[i + 1] * self.dims@[i
                + 1]
    }
}

/// The sizes and strides of a configuration fit the integers that it is made of.
pub open spec fn sizes_fit(
    bmnk: (usize, usize, usize, usize),
    lhs_l: &Layout,
    rhs_l: &Layout,
) -> bool {
    let (b, m, n, k) = bmnk;
    &&& b <= i32::MAX && m <= i32::MAX && n <= i32::MAX && k <= i32::MAX
    &&& batch_stride(lhs_l, m * k)->0 <= i64::MAX
    &&& batch_stride(rhs_l, n * k)->0 <= i64::MAX
    &&& m * n <= i64::MAX
}

/// The places whose products are added up for row `r`, column `c` of the `q`-th
/// product, going by the layouts: for each term, where its factors lie in the
/// right and in the left operand.
pub open spec fn product_terms(
    k: nat,
    lhs_l: &Layout,
    rhs_l: &Layout,
    q: int,
    r: int,
    c: int,
) -> Seq<(int, int)> {
    Seq::new(k, |p: int| (rhs_l.element_offset(q, p, c), lhs_l.element_offset(q, r, p)))
}

/// The two ways to find an element of an operand agree.
proof fn lemma_operand_index(rows: nat, cols: nat, row_stride: nat, col_stride: nat, r: int, c: int)
    requires
        operand_form(rows, cols, row_stride, col_stride) is Some,
        0 <= r < rows,
        0 <= c < cols,
    ensures
        ({
            let (op, ld) = operand_form(rows, cols, row_stride, col_stride)->0;
            op_index(op, ld as int, c, r) == r * row_stride + c * col_stride
        }),
{
    assert(r == 0 ==> r * row_stride == 0 && r * cols == 0) by (nonlinear_arith);
    assert(c == 0 ==> c * col_stride == 0 && c * rows == 0) by (nonlinear_arith);
    assert(col_stride == 1 ==> c * col_stride == c) by (nonlinear_arith);
    assert(row_stride == 1 ==> r * row_stride == r) by (nonlinear_arith);
}

/// The two ways to find the `q`-th matrix of an operand agree.
proof fn lemma_batch_offset(layout: &Layout, b: nat, rows: nat, cols: nat, q: int)
    requires
        layout.holds(b, rows, cols),
        batch_stride(layout, rows * cols as int) is Some,
        0 <= q < b,
    ensures
        q * (batch_stride(layout, rows * cols as int)->0) == layout.matrix_offset(q),
{
    if layout.rank() == 4 {
        let d0 = layout.dims@[0] as int;
        let d1 = layout.dims@[1] as int;
        let s0 = layout.stride@[0] as int;
        let s1 = layout.stride@[1] as int;
        assert(d1 > 0) by (nonlinear_arith)
            requires
                0 <= q < d0 * d1,
                d0 >= 0,
                d1 >= 0,
        ;
        let x = q / d1;
        let y = q % d1;
        assert(q == x * d1 + y) by {
            vstd::arithmetic::div_mod::lemma_fundamental_div_mod(q, d1);
            vstd::arithmetic::mul::lemma_mul_is_commutative(x, d1);
        }
        if s0 == s1 * d1 {
            assert((x * d1 + y) * s1 == x * (s1 * d1) + y * s1) by (nonlinear_arith);
        } else if d0 == 1 {
            assert(q < d1) by (nonlinear_arith)
                requires
                    q < d0 * d1,
                    d0 == 1,
            ;
            vstd::arithmetic::div_mod::lemma_basic_div(q, d1);
            vstd::arithmetic::div_mod::lemma_small_mod(q as nat, d1 as nat);
            assert(x * s0 == 0) by (nonlinear_arith)
                requires
                    x == 0,
            ;
        } else {
            assert(x == q && y == 0);
            assert(y * s1 == 0) by (nonlinear_arith)
                requires
                    y == 0,
            ;
        }
    } else if layout.rank() == 2 {
        assert(q == 0);
        assert(q * (rows * cols) == 0) by (nonlinear_arith)
            requires
                q == 0,
        ;
    }
}

/// The configured product is the product of the operands: the terms that the
/// library adds up for column `c` and row `r` of its result are, in order,
/// those of row `r` and column `c` of the row-major product, each factor read
/// where its operand's layout puts it; and the sum is written where a
/// contiguous row-major result has that element.
///
/// The library is handed the start of each operand's memory, so this is said of
/// operands whose first element lies there.
pub proof fn law_product_of_operands(
    bmnk: (usize, usize, usize, usize),
    lhs_l: &Layout,
    rhs_l: &Layout,
    q: int,
    r: int,
    c: int,
)
    requires
        HipblasMatmulConfig::accepted(bmnk, lhs_l, rhs_l),
        sizes_fit(bmnk, lhs_l, rhs_l),
        lhs_l.holds(bmnk.0 as nat, bmnk.1 as nat, bmnk.3 as nat),
        rhs_l.holds(bmnk.0 as nat, bmnk.3 as nat, bmnk.2 as nat),
        lhs_l.start_offset == 0,
        rhs_l.start_offset == 0,
        0 <= q < bmnk.0,
        0 <= r < bmnk.1,
        0 <= c < bmnk.2,
    ensures
        HipblasMatmulConfig::of(bmnk, lhs_l, rhs_l).terms(q, c, r) == product_terms(
            bmnk.3 as nat,
            lhs_l,
            rhs_l,
            q,
            r,
            c,
        ),
        HipblasMatmulConfig::of(bmnk, lhs_l, rhs_l).c_index(q, c, r) == (q * bmnk.1 + r) * bmnk.2
            + c,
{
    let (b, m, n, k) = bmnk;
    let config = HipblasMatmulConfig::of(bmnk, lhs_l, rhs_l);
    let wanted = product_terms(k as nat, lhs_l, rhs_l, q, r, c);
    lemma_batch_offset(lhs_l, b as nat, m as nat, k as nat, q);
    lemma_batch_offset(rhs_l, b as nat, k as nat, n as nat, q);
    assert(n * k == k * n) by (nonlinear_arith);
    assert forall|p: int| 0 <= p < k implies config.terms(q, c, r)[p] == wanted[p] by {
        lemma_operand_index(
            k as nat,
            n as nat,
            rhs_l.row_stride(),
            rhs_l.col_stride(),
            p,
            c,
        );
        lemma_operand_index(
            m as nat,
            k as nat,
            lhs_l.row_stride(),
            lhs_l.col_stride(),
            r,
            p,
        );
    }
    assert(config.terms(q, c, r) =~= wanted);
    assert(0 <= m * n) by (nonlinear_arith);
    assert(config.stride_c == m * n);
    assert(config.ldc == n);
    assert(q * (m * n) + (c + r * n) == (q * m + r) * n + c) by (nonlinear_arith);
}

/// The results lie densely, each in a place of its own: with `b` products of
/// `m` by `n` elements, the places are the numbers below `b * m * n`, and each
/// of them is the place of exactly one element.
pub proof fn law_results_are_dense(
    bmnk: (usize, usize, usize, usize),
    lhs_l: &Layout,
    rhs_l: &Layout,
    place: int,
)
    requires
        HipblasMatmulConfig::accepted(bmnk, lhs_l, rhs_l),
        sizes_fit(bmnk, lhs_l, rhs_l),
    ensures
        0 <= place < bmnk.0 * bmnk.1 * bmnk.2 ==> exists|q: int, r: int, c: int|
            0 <= q < bmnk.0 && 0 <= r < bmnk.1 && 0 <= c < bmnk.2
                && #[trigger] HipblasMatmulConfig::of(bmnk, lhs_l, rhs_l).c_index(q, c, r) == place,
        forall|q: int, r: int, c: int|
            0 <= q < bmnk.0 && 0 <= r < bmnk.1 && 0 <= c < bmnk.2
                && #[trigger] HipblasMatmulConfig::of(bmnk, lhs_l, rhs_l).c_index(q, c, r) == place
                ==> {
                &&& 0 <= place < bmnk.0 * bmnk.1 * bmnk.2
                &&& c == place % (bmnk.2 as int)
                &&& r == (place / bmnk.2 as int) % (bmnk.1 as int)
                &&& q == place / bmnk.2 as int / bmnk.1 as int
            },
{
    let config = HipblasMatmulConfig::of(bmnk, lhs_l, rhs_l);
    let (b, m, n) = (bmnk.0 as int, bmnk.1 as int, bmnk.2 as int);
    assert(0 <= m * n) by (nonlinear_arith)
        requires
            m >= 0,
            n >= 0,
    ;
    assert forall|q: int, r: int, c: int| #[trigger]
        config.c_index(q, c, r) == (q * m + r) * n + c by {
        assert(q * (m * n) + (c + r * n) == (q * m + r) * n + c) by (nonlinear_arith);
    }
    if 0 <= place < b * m * n {
        lemma_split_place(b, m, n, place);
        let (q, r, c) = (place / n / m, (place / n) % m, place % n);
        assert(config.c_index(q, c, r) == place);
    }
    assert forall|q: int, r: int, c: int|
        0 <= q < b && 0 <= r < m && 0 <= c < n && #[trigger] config.c_index(q, c, r)
            == place implies 0 <= place < b * m * n && c == place % n && r == (place / n) % m && q
        == place / n / m by {
        lemma_join_place(b, m, n, q, r, c);
    }
}

/// Every number below `b * m * n` is `(q * m + r) * n + c` for numbers in range.
proof fn lemma_split_place(b: int, m: int, n: int, place: int)
    requires
        0 <= b,
        0 <= m,
        0 <= n,
        0 <= place < b * m * n,
    ensures
        0 <= place / n / m < b,
        0 <= (place / n) % m < m,
        0 <= place % n < n,
        ((place / n / m) * m + (place / n) % m) * n + place % n == place,
{
    assert(n > 0 && m > 0) by (nonlinear_arith)
        requires
            0 <= place < b * m * n,
            0 <= b,
            0 <= m,
            0 <= n,
    ;
    let row = place / n;
    assert(place == row * n + place % n && 0 <= place % n < n) by (nonlinear_arith)
        requires
            n > 0,
            row == place / n,
    ;
    assert(0 <= row < b * m) by (nonlinear_arith)
        requires
            0 <= place < b * m * n,
            place == row * n + place % n,
            0 <= place % n < n,
            n > 0,
    ;
    assert(row == (row / m) * m + row % m && 0 <= row % m < m) by (nonlinear_arith)
        requires
            m > 0,
    ;
    assert(0 <= row / m < b) by (nonlinear_arith)
        requires
            0 <= row < b * m,
            row == (row / m) * m + row % m,
            0 <= row % m < m,
            m > 0,
    ;
}

/// `(q * m + r) * n + c` is below `b * m * n`, and the parts can be found again.
proof fn lemma_join_place(b: int, m: int, n: int, q: int, r: int, c: int)
    requires
        0 <= q < b,
        0 <= r < m,
        0 <= c < n,
    ensures
        0 <= (q * m + r) * n + c < b * m * n,
        ((q * m + r) * n + c) % n == c,
        ((q * m + r) * n + c) / n == q * m + r,
        (q * m + r) % m == r,
        (q * m + r) / m == q,
{
    let row = q * m + r;
    vstd::arithmetic::div_mod::lemma_fundamental_div_mod_converse(row * n + c, n, row, c);
    vstd::arithmetic::div_mod::lemma_fundamental_div_mod_converse(row, m, q, r);
    assert(0 <= row < b * m) by (nonlinear_arith)
        requires
            0 <= q < b,
            0 <= r < m,
            row == q * m + r,
    ;
    assert(0 <= row * n + c < (b * m) * n) by (nonlinear_arith)
        requires
            0 <= row < b * m,
            0 <= c < n,
    ;
}

/// A contiguous operand, as it is or transposed, has a form and a batch stride.
proof fn lemma_contiguous_operand(layout: &Layout, b: nat, rows: nat, cols: nat, matrix_len: int)
    requires
        layout.holds(b, rows, cols),
        layout.contiguous() || layout.contiguous_transposed(),
    ensures
        operand_form(rows, cols, layout.row_stride(), layout.col_stride()) is Some,
        batch_stride(layout, matrix_len) is Some,
{
    let rank = layout.rank();
    let stride = layout.stride@;
    let dims = layout.dims@;
    if layout.contiguous() {
        assert(stride[rank - 2] == stride[rank - 2 + 1] * dims[rank - 2 + 1]);
        assert(layout.row_stride() == cols && layout.col_stride() == 1) by (nonlinear_arith)
            requires
                layout.row_stride() == stride[rank - 2],
                layout.col_stride() == stride[rank - 1],
                stride[rank - 2] == stride[rank - 1] * dims[rank - 1],
                stride[rank - 1] == 1,
                dims[rank - 1] == cols,
        ;
    } else {
        assert(layout.row_stride() == 1 && layout.col_stride() == rows);
    }
    if rank == 4 {
        let i: int = 0;
        assert(stride[i] == stride[i + 1] * dims[i + 1]);
    }
}

/// Contiguous operands, as they are or transposed, are always accepted.
pub proof fn law_contiguous_operands_are_accepted(
    bmnk: (usize, usize, usize, usize),
    lhs_l: &Layout,
    rhs_l: &Layout,
)
    requires
        lhs_l.holds(bmnk.0 as nat, bmnk.1 as nat, bmnk.3 as nat),
        rhs_l.holds(bmnk.0 as nat, bmnk.3 as nat, bmnk.2 as nat),
        lhs_l.contiguous() || lhs_l.contiguous_transposed(),
        rhs_l.contiguous() || rhs_l.contiguous_transposed(),
    ensures
        HipblasMatmulConfig::accepted(bmnk, lhs_l, rhs_l),
{
    let (b, m, n, k) = bmnk;
    lemma_contiguous_operand(lhs_l, b as nat, m as nat, k as nat, m * k);
    lemma_contiguous_operand(rhs_l, b as nat, k as nat, n as nat, n * k);
}

/// Every size in a configuration comes from the product that it is for: with the
/// operands in reverse order, its rows are the result's columns and the other
/// way round, and it computes as many products as there are.
pub proof fn law_config_sizes(
    bmnk: (usize, usize, usize, usize),
    lhs_l: &Layout,
    rhs_l: &Layout,
)
    ensures
        ({
            let config = HipblasMatmulConfig::of(bmnk, lhs_l, rhs_l);
            &&& config.batch_count == bmnk.0 as i32
            &&& config.n == bmnk.1 as i32
            &&& config.m == bmnk.2 as i32
            &&& config.k == bmnk.3 as i32
            &&& config.ldc == bmnk.2 as i32
            &&& config.stride_c == (bmnk.1 * bmnk.2) as i64
            &&& bmnk.0 <= i32::MAX ==> config.batch_count == bmnk.0
            &&& bmnk.1 <= i32::MAX ==> config.n == bmnk.1
            &&& bmnk.2 <= i32::MAX ==> config.m == bmnk.2
            &&& bmnk.3 <= i32::MAX ==> config.k == bmnk.3
        }),
{
}

/// Read with `op` and the leading dimension `ld`, a matrix with these strides has
/// each of its elements in the place where its rows and columns are exchanged.
/// An extent of one leaves only the index zero.
pub open spec fn reads_transposed(
    op: HipblasOperation,
    ld: nat,
    rows: nat,
    cols: nat,
    row_stride: nat,
    col_stride: nat,
) -> bool {
    forall|r: int, c: int|
        0 <= r && 0 <= c && (rows == 1 ==> r == 0) && (cols == 1 ==> c == 0)
            ==> #[trigger] op_index(op, ld as int, c, r) == r * row_stride + c * col_stride
}

proof fn lemma_reads_transposed(rows: nat, cols: nat, row_stride: nat, col_stride: nat)
    ensures
        reads_transposed(
            HipblasOperation::NoTranspose,
            cols,
            rows,
            cols,
            row_stride,
            col_stride,
        ) <==> (col_stride == 1 || cols == 1) && (row_stride == cols || rows == 1),
        reads_transposed(
            HipblasOperation::Transpose,
            rows,
            rows,
            cols,
            row_stride,
            col_stride,
        ) <==> (col_stride == rows || cols == 1) && (row_stride == 1 || rows == 1),
{
    let plain = HipblasOperation::NoTranspose;
    let swapped = HipblasOperation::Transpose;
    assert(0 * row_stride == 0 && 0 * col_stride == 0 && 1 * row_stride == row_stride && 1
        * col_stride == col_stride && 0 * cols == 0 && 0 * rows == 0 && 1 * cols == cols && 1 * rows
        == rows) by (nonlinear_arith);
    if reads_transposed(plain, cols, rows, cols, row_stride, col_stride) {
        assert(op_index(plain, cols as int, 1, 0) == 1);
        assert(op_index(plain, cols as int, 0, 1) == cols);
    }
    if reads_transposed(swapped, rows, rows, cols, row_stride, col_stride) {
        assert(op_index(swapped, rows as int, 1, 0) == rows);
        assert(op_index(swapped, rows as int, 0, 1) == 1);
    }
    if (col_stride == 1 || cols == 1) && (row_stride == cols || rows == 1) {
        assert forall|r: int, c: int|
            0 <= r && 0 <= c && (rows == 1 ==> r == 0) && (cols == 1 ==> c
                == 0) implies #[trigger] op_index(plain, cols as int, c, r) == r * row_stride + c
            * col_stride by {
            assert(r == 0 ==> r * row_stride == 0 && r * cols == 0) by (nonlinear_arith);
            assert(c == 0 ==> c * col_stride == 0) by (nonlinear_arith);
            assert(col_stride == 1 ==> c * col_stride == c) by (nonlinear_arith);
        }
    }
    if (col_stride == rows || cols == 1) && (row_stride == 1 || rows == 1) {
        assert forall|r: int, c: int|
            0 <= r && 0 <= c && (rows == 1 ==> r == 0) && (cols == 1 ==> c
                == 0) implies #[trigger] op_index(swapped, rows as int, c, r) == r * row_stride + c
            * col_stride by {
            assert(r == 0 ==> r * row_stride == 0) by (nonlinear_arith);
            assert(c == 0 ==> c * col_stride == 0 && c * rows == 0) by (nonlinear_arith);
            assert(row_stride == 1 ==> r * row_stride == r) by (nonlinear_arith);
        }
    }
}

/// An operand is handed over in a form in which every element is read where it
/// lies: untransposed where that is so, transposed where only that is so, and it
/// is refused exactly where neither is.
pub proof fn law_operand_forms(rows: nat, cols: nat, row_stride: nat, col_stride: nat)
    ensures
        operand_form(rows, cols, row_stride, col_stride) == if reads_transposed(
            HipblasOperation::NoTranspose,
            cols,
            rows,
            cols,
            row_stride,
            col_stride,
        ) {
            Some((HipblasOperation::NoTranspose, cols))
        } else if reads_transposed(
            HipblasOperation::Transpose,
            rows,
            rows,
            cols,
            row_stride,
            col_stride,
        ) {
            Some((HipblasOperation::Transpose, rows))
        } else {
            None
        },
{
    lemma_reads_transposed(rows, cols, row_stride, col_stride);
}

/// A batch has a stride unless it has more than two dimensions, or two that both
/// matter and do not run on into each other. It is then that of the dimension
/// that runs fastest, or of the only one that matters.
pub proof fn law_batch_strides(layout: &Layout, matrix_len: int)
    requires
        layout.dims@.len() == layout.stride@.len(),
        layout.stride@.len() >= 2,
    ensures
        ({
            let stride = layout.stride@;
            let dims = layout.dims@;
            let collapses = stride[0] == stride[1] * dims[1];
            &&& stride.len() == 2 ==> batch_stride(layout, matrix_len) == Some(matrix_len)
            &&& stride.len() == 3 ==> batch_stride(layout, matrix_len) == Some(stride[0] as int)
            &&& stride.len() == 4 && (collapses || dims[0] == 1) ==> batch_stride(
                layout,
                matrix_len,
            ) == Some(stride[1] as int)
            &&& stride.len() == 4 && !collapses && dims[0] != 1 && dims[1] == 1 ==> batch_stride(
                layout,
                matrix_len,
            ) == Some(stride[0] as int)
            &&& stride.len() == 4 && !collapses && dims[0] != 1 && dims[1] != 1 ==> batch_stride(
                layout,
                matrix_len,
            ) is None
            &&& stride.len() > 4 ==> batch_stride(layout, matrix_len) is None
        }),
{
}

/// A batch of two dimensions is refused only where no single distance leads from
/// each matrix to the next.
pub proof fn law_refused_batches_have_no_stride(layout: &Layout, matrix_len: int, distance: int)
    requires
        layout.dims@.len() == layout.stride@.len(),
        layout.stride@.len() == 4,
        layout.dims@[0] > 0,
        layout.dims@[1] > 0,
        batch_stride(layout, matrix_len) is None,
    ensures
        exists|q: int|
            0 <= q < layout.dims@[0] * layout.dims@[1] && #[trigger] layout.matrix_offset(q) != q
                * distance,
{
    let d0 = layout.dims@[0] as int;
    let d1 = layout.dims@[1] as int;
    let s0 = layout.stride@[0] as int;
    let s1 = layout.stride@[1] as int;
    assert(1 < d0 * d1 && d1 < d0 * d1) by (nonlinear_arith)
        requires
            d0 > 1,
            d1 > 1,
    ;
    vstd::arithmetic::div_mod::lemma_small_mod(1, d1 as nat);
    vstd::arithmetic::div_mod::lemma_basic_div(1, d1);
    vstd::arithmetic::div_mod::lemma_fundamental_div_mod_converse(d1, d1, 1, 0);
    assert(0 * s0 == 0 && 1 * s1 == s1 && 1 * s0 == s0 && 0 * s1 == 0 && 1 * distance == distance)
        by (nonlinear_arith);
    assert(layout.matrix_offset(1) == s1);
    assert(layout.matrix_offset(d1) == s0);
    if distance == s1 {
        assert(d1 * distance == s1 * d1) by (nonlinear_arith)
            requires
                distance == s1,
        ;
    }
}

/// Layouts are accepted exactly where both operands can be handed over and both
/// batches have a stride; and the configuration holds the form and the stride of
/// each, the right operand's as those of the first matrix.
pub proof fn law_acceptance(
    bmnk: (usize, usize, usize, usize),
    lhs_l: &Layout,
    rhs_l: &Layout,
)
    requires
        lhs_l.stride@.len() >= 2,
        rhs_l.stride@.len() >= 2,
    ensures
        ({
            let (b, m, n, k) = bmnk;
            let config = HipblasMatmulConfig::of(bmnk, lhs_l, rhs_l);
            let (ls, rs) = (lhs_l.stride@, rhs_l.stride@);
            let right = operand_form(
                k as nat,
                n as nat,
                rs[rs.len() - 2] as nat,
                rs[rs.len() - 1] as nat,
            );
            let left = operand_form(
                m as nat,
                k as nat,
                ls[ls.len() - 2] as nat,
                ls[ls.len() - 1] as nat,
            );
            let right_stride = batch_stride(rhs_l, n * k);
            let left_stride = batch_stride(lhs_l, m * k);
            &&& HipblasMatmulConfig::accepted(bmnk, lhs_l, rhs_l) <==> right is Some && left is Some
                && right_stride is Some && left_stride is Some
            &&& right matches Some((op, ld)) ==> config.trans_a == op && config.lda == ld as i32
            &&& left matches Some((op, ld)) ==> config.trans_b == op && config.ldb == ld as i32
            &&& right_stride matches Some(stride) ==> config.stride_a == stride as i64
            &&& left_stride matches Some(stride) ==> config.stride_b == stride as i64
        }),
{
}

/// A configured product writes every element of the result and nothing else: the
/// places below `b * m * n` are exactly those that the sizes in the
/// configuration itself reach.
pub proof fn law_config_covers_result(
    bmnk: (usize, usize, usize, usize),
    lhs_l: &Layout,
    rhs_l: &Layout,
    place: int,
)
    requires
        HipblasMatmulConfig::accepted(bmnk, lhs_l, rhs_l),
        sizes_fit(bmnk, lhs_l, rhs_l),
    ensures
        ({
            let config = HipblasMatmulConfig::of(bmnk, lhs_l, rhs_l);
            0 <= place < bmnk.0 * bmnk.1 * bmnk.2 <==> exists|q: int, i: int, j: int|
                0 <= q < config.batch_count && 0 <= i < config.m && 0 <= j < config.n
                    && #[trigger] config.c_index(q, i, j) == place
        }),
{
    law_config_sizes(bmnk, lhs_l, rhs_l);
    law_results_are_dense(bmnk, lhs_l, rhs_l, place);
    let config = HipblasMatmulConfig::of(bmnk, lhs_l, rhs_l);
    if 0 <= place < bmnk.0 * bmnk.1 * bmnk.2 {
        let (q, r, c) = choose|q: int, r: int, c: int|
            0 <= q < bmnk.0 && 0 <= r < bmnk.1 && 0 <= c < bmnk.2 && #[trigger] config.c_index(
                q,
                c,
                r,
            ) == place;
        assert(config.c_index(q, c, r) == place);
    }
}

} // verus!
