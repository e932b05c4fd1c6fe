//! Matrix products on the device.

use crate::error::BackendError;
use crate::layout::Layout;
use crate::storage::DType;
use crate::text::{decimal, number_list, number_list_text, unsigned_text};
use vstd::prelude::*;

verus! {

/// How the library reads a matrix operand.
#[derive(Clone, Copy, Debug, PartialEq, Eq, Structural)]
pub enum HipblasOperation {
    NoTranspose,
    Transpose,
}

/// The sizes, leading dimensions and strides of a batched product, as the
/// library takes them: all matrices column by column.
#[derive(Clone, Copy, Debug, PartialEq, Eq, Structural)]
pub struct HipblasMatmulConfig {
    pub trans_a: HipblasOperation,
    pub trans_b: HipblasOperation,
    pub m: i32,
    pub n: i32,
    pub k: i32,
    pub lda: i32,
    pub ldb: i32,
    pub ldc: i32,
    pub stride_a: i64,
    pub stride_b: i64,
    pub stride_c: i64,
    pub batch_count: i32,
}

/// The type of the elements of an extended product.
#[derive(Clone, Copy, Debug, PartialEq, Eq, Structural)]
pub enum HipDataType {
    R16BF,
}

/// The type in which an extended product is computed.
#[derive(Clone, Copy, Debug, PartialEq, Eq, Structural)]
pub enum HipblasComputeType {
    Compute32F,
}

/// How an extended product is computed.
#[derive(Clone, Copy, Debug, PartialEq, Eq, Structural)]
pub enum HipblasGemmAlgo {
    Default,
}

/// The routine that computes `alpha * op(A) * op(B) + beta * C`, with the bits
/// of its scalars.
#[allow(inconsistent_fields)]
#[derive(Clone, Copy, Debug, PartialEq, Eq, Structural)]
pub enum GemmRoutine {
    /// In single precision.
    SgemmStridedBatched { alpha: u32, beta: u32 },
    /// In double precision.
    DgemmStridedBatched { alpha: u64, beta: u64 },
    /// In half precision.
    HgemmStridedBatched { alpha: u16, beta: u16 },
    /// In given types. The scalars are in single precision.
    GemmStridedBatchedEx {
        alpha: u32,
        beta: u32,
        data_type: HipDataType,
        compute_type: HipblasComputeType,
        algo: HipblasGemmAlgo,
    },
}

/// A call of a product routine: its handle, and the addresses of the matrices.
#[derive(Clone, Copy, Debug, PartialEq, Eq, Structural)]
pub struct GemmCall {
    pub routine: GemmRoutine,
    pub config: HipblasMatmulConfig,
    pub handle: usize,
    pub a: usize,
    pub b: usize,
    pub c: usize,
}

/// The bits of `1.0` in single precision.
pub const F32_ONE_BITS: u32 = 0x3f80_0000;

/// The bits of `1.0` in double precision.
pub const F64_ONE_BITS: u64 = 0x3ff0_0000_0000_0000;

/// The bits of `1.0` in half precision.
pub const F16_ONE_BITS: u16 = 0x3c00;

/// The routine for a product of elements of type `dtype`, where there is one:
/// the plain product, which overwrites what the result held.
pub open spec fn routine_for(dtype: DType) -> Option<GemmRoutine> {
    match dtype {
        DType::F32 => Some(GemmRoutine::SgemmStridedBatched { alpha: F32_ONE_BITS, beta: 0 }),
        DType::F64 => Some(GemmRoutine::DgemmStridedBatched { alpha: F64_ONE_BITS, beta: 0 }),
        DType::F16 => Some(GemmRoutine::HgemmStridedBatched { alpha: F16_ONE_BITS, beta: 0 }),
        DType::BF16 => Some(
            GemmRoutine::GemmStridedBatchedEx {
                alpha: F32_ONE_BITS,
                beta: 0,
                data_type: HipDataType::R16BF,
                compute_type: HipblasComputeType::Compute32F,
                algo: HipblasGemmAlgo::Default,
            },
        ),
        _ => None,
    }
}

/// The routine for a product of elements of type `dtype`, where there is one.
pub fn gemm_routine(dtype: DType) -> (routine: Option<GemmRoutine>)
    ensures
        routine == routine_for(dtype),
{
    match dtype {
        DType::F32 => Some(GemmRoutine::SgemmStridedBatched { alpha: F32_ONE_BITS, beta: 0 }),
        DType::F64 => Some(GemmRoutine::DgemmStridedBatched { alpha: F64_ONE_BITS, beta: 0 }),
        DType::F16 => Some(GemmRoutine::HgemmStridedBatched { alpha: F16_ONE_BITS, beta: 0 }),
        DType::BF16 => Some(
            GemmRoutine::GemmStridedBatchedEx {
                alpha: F32_ONE_BITS,
                beta: 0,
                data_type: HipDataType::R16BF,
                compute_type: HipblasComputeType::Compute32F,
                algo: HipblasGemmAlgo::Default,
            },
        ),
        _ => None,
    }
}

/// How a `rows` by `cols` matrix with these strides is handed over: as it is
/// where its rows are dense (the leading dimension is a row's length),
/// transposed where its columns are dense, and not at all otherwise. The stride
/// of a dimension of extent one does not matter.
pub open spec fn operand_form(rows: nat, cols: nat, row_stride: nat, col_stride: nat) -> Option<
    (HipblasOperation, nat),
> {
    if (col_stride == 1 || cols == 1) && (row_stride == cols || rows == 1) {
        Some((HipblasOperation::NoTranspose, cols))
    } else if (col_stride == rows || cols == 1) && (row_stride == 1 || rows == 1) {
        Some((HipblasOperation::Transpose, rows))
    } else {
        None
    }
}

/// The distance between the neighbouring matrices of a batch, where one
/// distance fits all: there is at most one batch dimension, or the two there
/// are collapse into one. With no batch dimension it is a matrix's size.
pub open spec fn batch_stride(layout: &Layout, matrix_len: int) -> Option<int> {
    let stride = layout.stride@;
    let dims = layout.dims@;
    if layout.rank() == 2 {
        Some(matrix_len)
    } else if layout.rank() == 3 {
        Some(stride[0] as int)
    } else if layout.rank() == 4 {
        if stride[0] == stride[1] * dims[1] || dims[0] == 1 {
            Some(stride[1] as int)
        } else if dims[1] == 1 {
            Some(stride[0] as int)
        } else {
            None
        }
    } else {
        None
    }
}

/// The machine can compute `batch_stride`.
pub open spec fn batch_stride_fits(layout: &Layout, matrix_len: int) -> bool {
    &&& layout.rank() == 2 ==> matrix_len <= usize::MAX
    &&& layout.rank() == 4 ==> layout.stride@[1] * layout.dims@[1] <= usize::MAX
}

/// The right operand is `k` by `n`.
pub open spec fn rhs_form(bmnk: (usize, usize, usize, usize), rhs_l: &Layout) -> Option<
    (HipblasOperation, nat),
> {
    operand_form(bmnk.3 as nat, bmnk.2 as nat, rhs_l.row_stride(), rhs_l.col_stride())
}

/// The left operand is `m` by `k`.
pub open spec fn lhs_form(bmnk: (usize, usize, usize, usize), lhs_l: &Layout) -> Option<
    (HipblasOperation, nat),
> {
    operand_form(bmnk.1 as nat, bmnk.3 as nat, lhs_l.row_stride(), lhs_l.col_stride())
}

impl HipblasMatmulConfig {
    /// Both layouts hold matrices, and every product that is computed on the way fits.
    pub open spec fn computable(
        bmnk: (usize, usize, usize, usize),
        lhs_l: &Layout,
        rhs_l: &Layout,
    ) -> bool {
        let (b, m, n, k) = bmnk;
        &&& lhs_l.wf() && rhs_l.wf()
        &&& lhs_l.rank() >= 2 && rhs_l.rank() >= 2
        &&& rhs_form(bmnk, rhs_l) is Some && lhs_form(bmnk, lhs_l) is Some ==> {
            &&& batch_stride_fits(lhs_l, m * k)
            &&& batch_stride(lhs_l, m * k) is Some ==> {
                &&& batch_stride_fits(rhs_l, n * k)
                &&& batch_stride(rhs_l, n * k) is Some ==> m * n <= usize::MAX
            }
        }
    }

    /// Whether both layouts hold matrices and every product that is computed on the way fits.
    pub fn is_computable(
        bmnk: (usize, usize, usize, usize),
        lhs_l: &Layout,
        rhs_l: &Layout,
    ) -> (computable: bool)
        ensures
            computable == Self::computable(bmnk, lhs_l, rhs_l),
    {
        let (_, m, n, k): (usize, usize, usize, usize) = bmnk;
        let lhs_rank: usize = lhs_l.stride.len();
        let rhs_rank: usize = rhs_l.stride.len();
        if lhs_l.dims.len() != lhs_rank || rhs_l.dims.len() != rhs_rank || lhs_rank < 2 || rhs_rank
            < 2 {
            return false;
        }
        let rhs_op = operand_op(k, n, rhs_l.stride[rhs_rank - 2], rhs_l.stride[rhs_rank - 1]);
        let lhs_op = operand_op(m, k, lhs_l.stride[lhs_rank - 2], lhs_l.stride[lhs_rank - 1]);
        if rhs_op.is_none() || lhs_op.is_none() {
            return true;
        }
        if !batch_stride_is_computable(lhs_l, m, k) {
            return false;
        }
        if operand_batch_stride(lhs_l, m, k).is_none() {
            return true;
        }
        if !batch_stride_is_computable(rhs_l, n, k) {
            return false;
        }
        operand_batch_stride(rhs_l, n, k).is_none() || m.checked_mul(n).is_some()
    }

    /// The layouts are ones that the library can be handed.
    pub open spec fn accepted(
        bmnk: (usize, usize, usize, usize),
        lhs_l: &Layout,
        rhs_l: &Layout,
    ) -> bool {
        let (b, m, n, k) = bmnk;
        &&& rhs_form(bmnk, rhs_l) is Some
        &&& lhs_form(bmnk, lhs_l) is Some
        &&& batch_stride(lhs_l, m * k) is Some
        &&& batch_stride(rhs_l, n * k) is Some
    }

    /// The configuration of a product of accepted layouts. A row-major product
    /// is the column-major product of the transposed operands in reverse
    /// order, so the right operand comes first.
    pub open spec fn of(
        bmnk: (usize, usize, usize, usize),
        lhs_l: &Layout,
        rhs_l: &Layout,
    ) -> HipblasMatmulConfig {
        let (b, m, n, k) = bmnk;
        let (trans_a, lda) = rhs_form(bmnk, rhs_l)->0;
        let (trans_b, ldb) = lhs_form(bmnk, lhs_l)->0;
        HipblasMatmulConfig {
            trans_a,
            trans_b,
            m: n as i32,
            n: m as i32,
            k: k as i32,
            lda: lda as i32,
            ldb: ldb as i32,
            ldc: n as i32,
            stride_a: (batch_stride(rhs_l, n * k)->0) as i64,
            stride_b: (batch_stride(lhs_l, m * k)->0) as i64,
            stride_c: (m * n) as i64,
            batch_count: b as i32,
        }
    }

    /// What is said of layouts that are not accepted.
    pub open spec fn refusal(
        bmnk: (usize, usize, usize, usize),
        lhs_l: &Layout,
        rhs_l: &Layout,
    ) -> Seq<char> {
        let (b, m, n, k) = bmnk;
        if rhs_form(bmnk, rhs_l) is None {
            "ROCm matmul requires contiguous or simple-transpose rhs layout"@ + strides_and_sizes(
                bmnk,
                lhs_l,
                rhs_l,
            )
        } else if lhs_form(bmnk, lhs_l) is None {
            "ROCm matmul requires contiguous or simple-transpose lhs layout"@ + strides_and_sizes(
                bmnk,
                lhs_l,
                rhs_l,
            )
        } else if batch_stride(lhs_l, m * k) is None {
            "ROCm matmul unsupported lhs batch stride "@ + stride_and_dims(lhs_l)
        } else {
            "ROCm matmul unsupported rhs batch stride "@ + stride_and_dims(rhs_l)
        }
    }

    /// The configuration of the batched product of a left operand laid out as
    /// `lhs_l` and a right operand laid out as `rhs_l`. `bmnk` gives the number
    /// of products and their sizes: `m` by `k` times `k` by `n`.
    pub fn new(bmnk: (usize, usize, usize, usize), lhs_l: &Layout, rhs_l: &Layout) -> (config:
        Result<Self, BackendError>)
        requires
            Self::computable(bmnk, lhs_l, rhs_l),
        ensures
            config is Ok <==> Self::accepted(bmnk, lhs_l, rhs_l),
            config matches Ok(c) ==> c == Self::of(bmnk, lhs_l, rhs_l),
            config matches Err(e) ==> (e matches BackendError::Msg(text) && text@ == Self::refusal(
                bmnk,
                lhs_l,
                rhs_l,
            )),
    {
        let (b, m, n, k): (usize, usize, usize, usize) = bmnk;
        let rhs_rank: usize = rhs_l.stride.len();
        let lhs_rank: usize = lhs_l.stride.len();
        let rhs_m1: usize = rhs_l.stride[rhs_rank - 1];
        let rhs_m2: usize = rhs_l.stride[rhs_rank - 2];
        let lhs_m1: usize = lhs_l.stride[lhs_rank - 1];
        let lhs_m2: usize = lhs_l.stride[lhs_rank - 2];

        let (trans_a, lda): (HipblasOperation, usize) = match operand_op(k, n, rhs_m2, rhs_m1) {
            Some(form) => form,
            None => {
                let mut text =
                    "ROCm matmul requires contiguous or simple-transpose rhs layout".to_owned();
                text.append(strides_and_sizes_text(bmnk, lhs_l, rhs_l).as_str());
                return Err(BackendError::Msg(text));
            },
        };
        let (trans_b, ldb): (HipblasOperation, usize) = match operand_op(m, k, lhs_m2, lhs_m1) {
            Some(form) => form,
            None => {
                let mut text =
                    "ROCm matmul requires contiguous or simple-transpose lhs layout".to_owned();
                text.append(strides_and_sizes_text(bmnk, lhs_l, rhs_l).as_str());
                return Err(BackendError::Msg(text));
            },
        };
        let stride_b: usize = match operand_batch_stride(lhs_l, m, k) {
            Some(stride) => stride,
            None => {
                let mut text = "ROCm matmul unsupported lhs batch stride ".to_owned();
                text.append(stride_and_dims_text(lhs_l).as_str());
                return Err(BackendError::Msg(text));
            },
        };
        let stride_a: usize = match operand_batch_stride(rhs_l, n, k) {
            Some(stride) => stride,
            None => {
                let mut text = "ROCm matmul unsupported rhs batch stride ".to_owned();
                text.append(stride_and_dims_text(rhs_l).as_str());
                return Err(BackendError::Msg(text));
            },
        };
        Ok(
            HipblasMatmulConfig {
                trans_a,
                trans_b,
                m: n as i32,
                n: m as i32,
                k: k as i32,
                lda: lda as i32,
                ldb: ldb as i32,
                ldc: n as i32,
                stride_a: stride_a as i64,
                stride_b: stride_b as i64,
                stride_c: (m * n) as i64,
                batch_count: b as i32,
            },
        )
    }
}

/// The strides of both operands and the sizes of the product, as a message tells them.
pub open spec fn strides_and_sizes(
    bmnk: (usize, usize, usize, usize),
    lhs_l: &Layout,
    rhs_l: &Layout,
) -> Seq<char> {
    ", got lhs stride "@ + number_list(lhs_l.stride@) + ", rhs stride "@ + number_list(
        rhs_l.stride@,
    ) + ", mnk ("@ + decimal(bmnk.1 as nat) + ", "@ + decimal(bmnk.2 as nat) + ", "@ + decimal(
        bmnk.3 as nat,
    ) + ")"@
}

/// The strides and the extents of a layout, as a message tells them.
pub open spec fn stride_and_dims(layout: &Layout) -> Seq<char> {
    number_list(layout.stride@) + " for dims "@ + number_list(layout.dims@)
}

fn strides_and_sizes_text(
    bmnk: (usize, usize, usize, usize),
    lhs_l: &Layout,
    rhs_l: &Layout,
) -> (text: String)
    ensures
        text@ == strides_and_sizes(bmnk, lhs_l, rhs_l),
{
    let mut text = ", got lhs stride ".to_owned();
    text.append(number_list_text(&lhs_l.stride).as_str());
    text.append(", rhs stride ");
    text.append(number_list_text(&rhs_l.stride).as_str());
    text.append(", mnk (");
    text.append(unsigned_text(bmnk.1 as u64).as_str());
    text.append(", ");
    text.append(unsigned_text(bmnk.2 as u64).as_str());
    text.append(", ");
    text.append(unsigned_text(bmnk.3 as u64).as_str());
    text.append(")");
    text
}

fn stride_and_dims_text(layout: &Layout) -> (text: String)
    ensures
        text@ == stride_and_dims(layout),
{
    let mut text = number_list_text(&layout.stride);
    text.append(" for dims ");
    text.append(number_list_text(&layout.dims).as_str());
    text
}

fn operand_op(rows: usize, cols: usize, row_stride: usize, col_stride: usize) -> (form: Option<
    (HipblasOperation, usize),
>)
    ensures
        form is Some <==> operand_form(
            rows as nat,
            cols as nat,
            row_stride as nat,
            col_stride as nat,
        ) is Some,
        form matches Some((op, ld)) ==> operand_form(
            rows as nat,
            cols as nat,
            row_stride as nat,
            col_stride as nat,
        ) == Some((op, ld as nat)),
{
    if (col_stride == 1 || cols == 1) && (row_stride == cols || rows == 1) {
        Some((HipblasOperation::NoTranspose, cols))
    } else if (col_stride == rows || cols == 1) && (row_stride == 1 || rows == 1) {
        Some((HipblasOperation::Transpose, rows))
    } else {
        None
    }
}

fn batch_stride_is_computable(layout: &Layout, rows: usize, cols: usize) -> (computable: bool)
    requires
        layout.wf(),
        layout.rank() >= 2,
    ensures
        computable == batch_stride_fits(layout, rows * cols),
{
    let rank: usize = layout.stride.len();
    if rank == 2 {
        rows.checked_mul(cols).is_some()
    } else if rank == 4 {
        layout.stride[1].checked_mul(layout.dims[1]).is_some()
    } else {
        true
    }
}

fn operand_batch_stride(layout: &Layout, rows: usize, cols: usize) -> (stride: Option<usize>)
    requires
        layout.wf(),
        layout.rank() >= 2,
        batch_stride_fits(layout, rows * cols),
    ensures
        stride is Some <==> batch_stride(layout, rows * cols) is Some,
        stride matches Some(s) ==> batch_stride(layout, rows * cols) == Some(s as int),
{
    let rank: usize = layout.stride.len();
    if rank == 2 {
        Some(rows * cols)
    } else if rank == 3 {
        Some(layout.stride[0])
    } else if rank == 4 {
        if layout.stride[0] == layout.stride[1] * layout.dims[1] {
            Some(layout.stride[1])
        } else if layout.dims[0] == 1 {
            Some(layout.stride[1])
        } else if layout.dims[1] == 1 {
            Some(layout.stride[0])
        } else {
            None
        }
    } else {
        None
    }
}

/// There is a routine for the four floating-point types of at least two bytes,
/// each for its own type. It multiplies by one and adds nothing of what was there:
/// the first scalar is the number one in its format, a sign and fraction of zero
/// below the exponent's bias, and the second is zero.
pub proof fn law_routines(dtype: DType)
    ensures
        routine_for(dtype) is Some <==> dtype is BF16 || dtype is F16 || dtype is F32
            || dtype is F64,
        dtype is F32 ==> routine_for(dtype) == Some(
            GemmRoutine::SgemmStridedBatched { alpha: (127 * 0x80_0000) as u32, beta: 0 },
        ),
        dtype is F64 ==> routine_for(dtype) == Some(
            GemmRoutine::DgemmStridedBatched { alpha: (1023 * 0x10_0000_0000_0000) as u64, beta: 0 },
        ),
        dtype is F16 ==> routine_for(dtype) == Some(
            GemmRoutine::HgemmStridedBatched { alpha: (15 * 0x400) as u16, beta: 0 },
        ),
        dtype is BF16 ==> routine_for(dtype) == Some(
            GemmRoutine::GemmStridedBatchedEx {
                alpha: (127 * 0x80_0000) as u32,
                beta: 0,
                data_type: HipDataType::R16BF,
                compute_type: HipblasComputeType::Compute32F,
                algo: HipblasGemmAlgo::Default,
            },
        ),
{
}

/// A refusal names the operand that is at fault, the right one first and its
/// strides within a matrix before those of its batch, and tells what was given.
pub proof fn law_refusals(
    bmnk: (usize, usize, usize, usize),
    lhs_l: &Layout,
    rhs_l: &Layout,
)
    requires
        !HipblasMatmulConfig::accepted(bmnk, lhs_l, rhs_l),
    ensures
        ({
            let (b, m, n, k) = bmnk;
            let text = HipblasMatmulConfig::refusal(bmnk, lhs_l, rhs_l);
            let given = ", got lhs stride "@ + number_list(lhs_l.stride@) + ", rhs stride "@
                + number_list(rhs_l.stride@) + ", mnk ("@ + decimal(m as nat) + ", "@ + decimal(
                n as nat,
            ) + ", "@ + decimal(k as nat) + ")"@;
            let right = rhs_form(bmnk, rhs_l) is Some;
            let left = lhs_form(bmnk, lhs_l) is Some;
            &&& !right ==> text == "ROCm matmul requires contiguous or simple-transpose rhs layout"@
                + given
            &&& right && !left ==> text
                == "ROCm matmul requires contiguous or simple-transpose lhs layout"@ + given
            &&& right && left && batch_stride(lhs_l, m * k) is None ==> text
                == "ROCm matmul unsupported lhs batch stride "@ + (number_list(lhs_l.stride@)
                + " for dims "@ + number_list(lhs_l.dims@))
            &&& right && left && batch_stride(lhs_l, m * k) is Some ==> text
                == "ROCm matmul unsupported rhs batch stride "@ + (number_list(rhs_l.stride@)
                + " for dims "@ + number_list(rhs_l.dims@))
        }),
{
}

/// The strides that count are the last two of each layout, the right operand
/// being `k` by `n` and the left one `m` by `k`.
pub proof fn law_forms_of_operands(
    bmnk: (usize, usize, usize, usize),
    lhs_l: &Layout,
    rhs_l: &Layout,
)
    ensures
        rhs_form(bmnk, rhs_l) == operand_form(
            bmnk.3 as nat,
            bmnk.2 as nat,
            rhs_l.stride@[rhs_l.stride@.len() - 2] as nat,
            rhs_l.stride@[rhs_l.stride@.len() - 1] as nat,
        ),
        lhs_form(bmnk, lhs_l) == operand_form(
            bmnk.1 as nat,
            bmnk.3 as nat,
            lhs_l.stride@[lhs_l.stride@.len() - 2] as nat,
            lhs_l.stride@[lhs_l.stride@.len() - 1] as nat,
        ),
{
}

/// Layouts of matrices whose sizes and strides multiply within the machine's
/// range can always be asked about, and nothing can be asked about layouts that
/// hold no matrices.
pub proof fn law_computable(
    bmnk: (usize, usize, usize, usize),
    lhs_l: &Layout,
    rhs_l: &Layout,
)
    ensures
        ({
            let (b, m, n, k) = bmnk;
            let well_laid = lhs_l.dims@.len() == lhs_l.stride@.len() && rhs_l.dims@.len()
                == rhs_l.stride@.len() && lhs_l.stride@.len() >= 2 && rhs_l.stride@.len() >= 2;
            &&& HipblasMatmulConfig::computable(bmnk, lhs_l, rhs_l) ==> well_laid
            &&& well_laid && m * k <= usize::MAX && n * k <= usize::MAX && m * n <= usize::MAX && (
            lhs_l.stride@.len() == 4 ==> lhs_l.stride@[1] * lhs_l.dims@[1] <= usize::MAX) && (
            rhs_l.stride@.len() == 4 ==> rhs_l.stride@[1] * rhs_l.dims@[1] <= usize::MAX)
                ==> HipblasMatmulConfig::computable(bmnk, lhs_l, rhs_l)
            &&& HipblasMatmulConfig::computable(bmnk, lhs_l, rhs_l)
                && HipblasMatmulConfig::accepted(bmnk, lhs_l, rhs_l) ==> {
                &&& m * n <= usize::MAX
                &&& lhs_l.stride@.len() == 2 ==> m * k <= usize::MAX
                &&& rhs_l.stride@.len() == 2 ==> n * k <= usize::MAX
                &&& lhs_l.stride@.len() == 4 ==> lhs_l.stride@[1] * lhs_l.dims@[1] <= usize::MAX
                &&& rhs_l.stride@.len() == 4 ==> rhs_l.stride@[1] * rhs_l.dims@[1] <= usize::MAX
            }
            &&& well_laid && (rhs_form(bmnk, rhs_l) is None || lhs_form(bmnk, lhs_l) is None)
                ==> HipblasMatmulConfig::computable(bmnk, lhs_l, rhs_l)
            &&& well_laid && batch_stride(lhs_l, m * k) is None && (lhs_l.stride@.len() == 4
                ==> lhs_l.stride@[1] * lhs_l.dims@[1] <= usize::MAX)
                ==> HipblasMatmulConfig::computable(bmnk, lhs_l, rhs_l)
            &&& well_laid && batch_stride(lhs_l, m * k) is Some && (lhs_l.stride@.len() == 2 ==> m
                * k <= usize::MAX) && (lhs_l.stride@.len() == 4 ==> lhs_l.stride@[1]
                * lhs_l.dims@[1] <= usize::MAX) && (rhs_l.stride@.len() == 2 ==> n * k
                <= usize::MAX) && (rhs_l.stride@.len() == 4 ==> rhs_l.stride@[1] * rhs_l.dims@[1]
                <= usize::MAX) && (batch_stride(rhs_l, n * k) is Some ==> m * n <= usize::MAX)
                ==> HipblasMatmulConfig::computable(bmnk, lhs_l, rhs_l)
        }),
{
}

} // verus!
