//! Matrix products that the device computes.

use crate::device::RocmDevice;
use crate::error::{map_hip_err, BackendError};
use crate::hip::HipMemcpyKind;
use crate::layout::Layout;
use crate::matmul::{
    gemm_routine, routine_for, GemmCall, GemmRoutine, HipblasMatmulConfig,
};
use crate::operation::{failure_of, Operation, Reply, Request, Step};
use crate::rocm_storage::{RawRocmBuffer, RocmStorage};
use crate::storage::{
    cpu_storage_write_bytes, ByteOrder, CpuStorage, DType, StorageModel,
};
use vstd::prelude::*;

verus! {

/// The work of fetching elements from the device.
#[derive(Clone, Copy, Debug, PartialEq, Eq, Structural)]
pub struct Download {
    pub src: usize,
    pub dtype: DType,
    pub elem_count: usize,
    pub order: ByteOrder,
}

/// What is said of a type that no product is computed in.
pub open spec fn unsupported_text(dtype: DType) -> Seq<char> {
    "unsupported native ROCm matmul dtype "@ + dtype.name_text()
}

/// `half::bf16::to_bits` of `half::bf16::ZERO`: positive zero has no bit set.
#[verifier::external_body]
fn bf16_zero_bits() -> (bits: u16)
    ensures
        bits == 0,
{
    half::bf16::ZERO.to_bits()
}

/// `elem_count` zeros of type `dtype`, where products are computed in that type.
pub fn zero_shadow(dtype: DType, elem_count: usize) -> (result: Result<CpuStorage, BackendError>)
    ensures
        result is Ok <==> routine_for(dtype) is Some,
        result matches Ok(shadow) ==> shadow@ == (StorageModel {
            dtype,
            bits: Seq::new(elem_count as nat, |i: int| 0nat),
        }),
        result matches Err(e) ==> (e matches BackendError::Msg(text) && text@ == unsupported_text(
            dtype,
        )),
{
    let shadow = match dtype {
        DType::BF16 => CpuStorage::BF16(vec![bf16_zero_bits(); elem_count]),
        DType::F16 => CpuStorage::F16(vec![0u16; elem_count]),
        DType::F32 => CpuStorage::F32(vec![0u32; elem_count]),
        DType::F64 => CpuStorage::F64(vec![0u64; elem_count]),
        other => {
            return Err(unsupported(other));
        },
    };
    assert(shadow@.bits =~= Seq::new(elem_count as nat, |i: int| 0nat));
    Ok(shadow)
}

/// The failure of a product of elements of type `dtype`.
fn unsupported(dtype: DType) -> (error: BackendError)
    ensures
        error matches BackendError::Msg(text) && text@ == unsupported_text(dtype),
{
    let mut text = "unsupported native ROCm matmul dtype ".to_owned();
    text.append(dtype.name());
    BackendError::Msg(text)
}

/// The work of fetching `elem_count` elements of type `dtype` from the address
/// `src` on the device.
pub fn download_shadow(src: usize, dtype: DType, elem_count: usize, order: ByteOrder) -> (result:
    Result<Download, BackendError>)
    requires
        routine_for(dtype) is Some ==> elem_count * dtype.width() <= usize::MAX,
    ensures
        result is Ok <==> routine_for(dtype) is Some,
        result matches Ok(download) ==> download == (Download { src, dtype, elem_count, order })
            && download.wf(),
        result matches Err(e) ==> (e matches BackendError::Msg(text) && text@ == unsupported_text(
            dtype,
        )),
{
    match dtype {
        DType::BF16 | DType::F16 | DType::F32 | DType::F64 => Ok(
            Download { src, dtype, elem_count, order },
        ),
        other => Err(unsupported(other)),
    }
}

impl Download {
    /// The elements that `bytes` spell.
    pub open spec fn elements(self, bytes: Seq<u8>) -> StorageModel {
        StorageModel {
            dtype: self.dtype,
            bits: self.order.decode_all(self.dtype.width(), bytes),
        }
    }
}

impl Operation for Download {
    type Output = Result<CpuStorage, BackendError>;

    open spec fn wf(&self) -> bool {
        &&& routine_for(self.dtype) is Some
        &&& self.elem_count * self.dtype.width() <= usize::MAX
    }

    open spec fn pending(&self) -> Request {
        Request::CopyOut {
            src: self.src,
            size: (self.elem_count * self.dtype.width()) as usize,
            kind: HipMemcpyKind::DeviceToHost,
        }
    }

    open spec fn next(self, reply: Reply) -> Option<Self> {
        None
    }

    /// Any error is passed on.
    open spec fn ends_with(self, reply: Reply, output: Result<CpuStorage, BackendError>) -> bool {
        match reply.failure() {
            Some(e) => output == Err::<CpuStorage, BackendError>(BackendError::Wrapped(e)),
            None => output matches Ok(shadow) && shadow@ == self.elements(reply.bytes()),
        }
    }

    open spec fn requests_left(&self) -> nat {
        1
    }

    proof fn lemma_goes_on(self, reply: Reply) {
    }

    fn request(&self) -> (request: Request) {
        Request::CopyOut {
            src: self.src,
            size: self.elem_count * self.dtype.element_size(),
            kind: HipMemcpyKind::DeviceToHost,
        }
    }

    fn advance(self, reply: Reply) -> (step: Step<Self, Self::Output>) {
        match reply {
            Reply::Bytes(Ok(bytes)) => match zero_shadow(self.dtype, self.elem_count) {
                Ok(mut shadow) => {
                    cpu_storage_write_bytes(&mut shadow, self.order, &bytes);
                    Step::Finished(Ok(shadow))
                },
                Err(e) => Step::Finished(Err(e)),
            },
            Reply::Bytes(Err(e)) => Step::Finished(Err(map_hip_err(e))),
            _ => Step::Next(self),
        }
    }
}

/// How far a product is.
#[derive(Debug)]
pub enum MatmulStage {
    Load,
    Init,
    Select,
    LoadBlas,
    Handle,
    Allocate { handle: usize },
    Multiply { handle: usize, out: usize },
    Fetch { out: usize },
    /// The product failed: the memory for the result is released first.
    Release { out: usize, error: BackendError },
}

/// The work of computing a product on a device.
#[derive(Debug)]
pub struct NativeMatmul {
    pub device: RocmDevice,
    pub dtype: DType,
    pub routine: GemmRoutine,
    pub config: HipblasMatmulConfig,
    /// The address of the left operand.
    pub lhs: usize,
    /// The address of the right operand.
    pub rhs: usize,
    /// The number of elements of the result.
    pub elem_count: usize,
    pub order: ByteOrder,
    pub stage: MatmulStage,
}

impl NativeMatmul {
    /// The size of the result.
    pub open spec fn size(&self) -> int {
        self.elem_count * self.dtype.width()
    }

    /// The same product at another stage.
    pub open spec fn at(self, stage: MatmulStage) -> Self {
        NativeMatmul { stage, ..self }
    }

    /// The fetching of the result.
    pub open spec fn fetching(&self, out: usize) -> Download {
        Download { src: out, dtype: self.dtype, elem_count: self.elem_count, order: self.order }
    }
}

impl Operation for NativeMatmul {
    type Output = Result<RocmStorage, BackendError>;

    open spec fn wf(&self) -> bool {
        &&& routine_for(self.dtype) == Some(self.routine)
        &&& self.size() <= usize::MAX
    }

    /// The right operand is handed over as the first matrix, the left one as the second.
    open spec fn pending(&self) -> Request {
        match self.stage {
            MatmulStage::Load => Request::LoadRuntime,
            MatmulStage::Init => Request::Init { flags: 0 },
            MatmulStage::Select => Request::SetDevice { ordinal: self.device@ as i32 },
            MatmulStage::LoadBlas => Request::LoadBlas,
            MatmulStage::Handle => Request::CreateHandle,
            MatmulStage::Allocate { .. } => Request::Malloc { size: self.size() as usize },
            MatmulStage::Multiply { handle, out } => Request::Gemm {
                call: GemmCall {
                    routine: self.routine,
                    config: self.config,
                    handle,
                    a: self.rhs,
                    b: self.lhs,
                    c: out,
                },
            },
            MatmulStage::Fetch { out } => self.fetching(out).pending(),
            MatmulStage::Release { out, .. } => Request::Free { ptr: out },
        }
    }

    /// Once the memory for the result is there, a failure releases it before it
    /// ends the work.
    open spec fn next(self, reply: Reply) -> Option<Self> {
        match (self.stage, reply.failure()) {
            (MatmulStage::Multiply { out, .. }, Some(e)) => Some(
                self.at(MatmulStage::Release { out, error: BackendError::Wrapped(e) }),
            ),
            (MatmulStage::Fetch { out }, Some(e)) => Some(
                self.at(MatmulStage::Release { out, error: BackendError::Wrapped(e) }),
            ),
            (MatmulStage::Release { .. }, _) => None,
            (_, Some(_)) => None,
            (MatmulStage::Load, None) => Some(self.at(MatmulStage::Init)),
            (MatmulStage::Init, None) => Some(self.at(MatmulStage::Select)),
            (MatmulStage::Select, None) => Some(self.at(MatmulStage::LoadBlas)),
            (MatmulStage::LoadBlas, None) => Some(self.at(MatmulStage::Handle)),
            (MatmulStage::Handle, None) => Some(
                self.at(MatmulStage::Allocate { handle: reply.pointer() }),
            ),
            (MatmulStage::Allocate { handle }, None) => Some(
                self.at(MatmulStage::Multiply { handle, out: reply.pointer() }),
            ),
            (MatmulStage::Multiply { out, .. }, None) => Some(
                self.at(MatmulStage::Fetch { out }),
            ),
            (MatmulStage::Fetch { .. }, None) => None,
        }
    }

    /// Any error is passed on, except one from releasing memory after a failure,
    /// which that failure outranks. The storage holds what was fetched, in the
    /// memory that it was computed into.
    open spec fn ends_with(self, reply: Reply, output: Result<RocmStorage, BackendError>) -> bool {
        match (self.stage, reply.failure()) {
            (MatmulStage::Release { error, .. }, _) => output == Err::<RocmStorage, BackendError>(
                error,
            ),
            (_, Some(e)) => output == Err::<RocmStorage, BackendError>(BackendError::Wrapped(e)),
            (MatmulStage::Fetch { out }, None) => {
                &&& output matches Ok(storage)
                &&& storage.contents() == self.fetching(out).elements(reply.bytes())
                &&& storage.place() == self.device@
                &&& storage.buffer() == (RawRocmBuffer {
                    ptr: out,
                    len_bytes: self.size() as usize,
                    ordinal: self.device@,
                })
            },
            _ => false,
        }
    }

    open spec fn requests_left(&self) -> nat {
        match self.stage {
            MatmulStage::Load => 9,
            MatmulStage::Init => 8,
            MatmulStage::Select => 7,
            MatmulStage::LoadBlas => 6,
            MatmulStage::Handle => 5,
            MatmulStage::Allocate { .. } => 4,
            MatmulStage::Multiply { .. } => 3,
            MatmulStage::Fetch { .. } => 2,
            MatmulStage::Release { .. } => 1,
        }
    }

    proof fn lemma_goes_on(self, reply: Reply) {
    }

    fn request(&self) -> (request: Request) {
        match &self.stage {
            MatmulStage::Load => Request::LoadRuntime,
            MatmulStage::Init => Request::Init { flags: 0 },
            MatmulStage::Select => Request::SetDevice { ordinal: self.device.ordinal() as i32 },
            MatmulStage::LoadBlas => Request::LoadBlas,
            MatmulStage::Handle => Request::CreateHandle,
            MatmulStage::Allocate { .. } => Request::Malloc {
                size: self.elem_count * self.dtype.element_size(),
            },
            MatmulStage::Multiply { handle, out } => Request::Gemm {
                call: GemmCall {
                    routine: self.routine,
                    config: self.config,
                    handle: *handle,
                    a: self.rhs,
                    b: self.lhs,
                    c: *out,
                },
            },
            MatmulStage::Fetch { out } => {
                let download = Download {
                    src: *out,
                    dtype: self.dtype,
                    elem_count: self.elem_count,
                    order: self.order,
                };
                download.request()
            },
            MatmulStage::Release { out, .. } => Request::Free { ptr: *out },
        }
    }

    fn advance(self, reply: Reply) -> (step: Step<Self, Self::Output>) {
        let NativeMatmul {
            device,
            dtype,
            routine,
            config,
            lhs,
            rhs,
            elem_count,
            order,
            stage,
        } = self;
        let stage = match (stage, reply) {
            (MatmulStage::Handle, Reply::Pointer(Ok(handle))) => MatmulStage::Allocate { handle },
            (MatmulStage::Allocate { handle }, Reply::Pointer(Ok(out))) => MatmulStage::Multiply {
                handle,
                out,
            },
            (MatmulStage::Multiply { handle, out }, reply) => match failure_of(reply) {
                Some(e) => MatmulStage::Release { out, error: map_hip_err(e) },
                None => MatmulStage::Fetch { out },
            },
            (MatmulStage::Fetch { out }, reply) => {
                let download = Download { src: out, dtype, elem_count, order };
                match download.advance(reply) {
                    Step::Finished(Ok(shadow)) => {
                        let len_bytes: usize = elem_count * dtype.element_size();
                        proof {
                            let width = dtype.width();
                            vstd::arithmetic::div_mod::lemma_div_by_multiple(
                                elem_count as int,
                                width as int,
                            );
                        }
                        return Step::Finished(
                            Ok(RocmStorage::from_raw_parts(device, out, len_bytes, shadow)),
                        );
                    },
                    Step::Finished(Err(error)) => MatmulStage::Release { out, error },
                    Step::Next(_) => MatmulStage::Fetch { out },
                }
            },
            (MatmulStage::Release { error, .. }, _) => {
                return Step::Finished(Err(error));
            },
            (stage, reply) => {
                if let Some(e) = failure_of(reply) {
                    return Step::Finished(Err(map_hip_err(e)));
                }
                match stage {
                    MatmulStage::Load => MatmulStage::Init,
                    MatmulStage::Init => MatmulStage::Select,
                    MatmulStage::Select => MatmulStage::LoadBlas,
                    MatmulStage::LoadBlas => MatmulStage::Handle,
                    other => other,
                }
            },
        };
        Step::Next(
            NativeMatmul { device, dtype, routine, config, lhs, rhs, elem_count, order, stage },
        )
    }
}

/// Where a product is computed: on the device, or by the host.
#[derive(Debug)]
pub enum MatmulPlan {
    Native(NativeMatmul),
    Cpu,
}

/// The device computes a product of elements of these types in these layouts:
/// the types are the same, one that there is a routine for, and the layouts are
/// ones that it can be handed.
pub open spec fn is_native(
    lhs: DType,
    rhs: DType,
    bmnk: (usize, usize, usize, usize),
    lhs_l: &Layout,
    rhs_l: &Layout,
) -> bool {
    &&& lhs == rhs
    &&& routine_for(lhs) is Some
    &&& HipblasMatmulConfig::accepted(bmnk, lhs_l, rhs_l)
}

/// The layouts hold matrices, and every product of numbers that is computed on
/// the way to a product of elements of these types fits the machine.
pub open spec fn product_fits(
    lhs: DType,
    rhs: DType,
    bmnk: (usize, usize, usize, usize),
    lhs_l: &Layout,
    rhs_l: &Layout,
) -> bool {
    &&& bmnk.0 * bmnk.1 <= usize::MAX
    &&& bmnk.0 * bmnk.1 * bmnk.2 <= usize::MAX
    &&& HipblasMatmulConfig::computable(bmnk, lhs_l, rhs_l)
    &&& is_native(lhs, rhs, bmnk, lhs_l, rhs_l) ==> bmnk.0 * bmnk.1 * bmnk.2 * lhs.width()
        <= usize::MAX
}

impl RocmStorage {
    /// Whether `matmul` can be asked about these operands.
    pub fn matmul_fits(
        &self,
        rhs: &Self,
        bmnk: (usize, usize, usize, usize),
        lhs_l: &Layout,
        rhs_l: &Layout,
    ) -> (fits: bool)
        ensures
            fits == product_fits(
                self.contents().dtype,
                rhs.contents().dtype,
                bmnk,
                lhs_l,
                rhs_l,
            ),
    {
        let elem_count: usize = match bmnk.0.checked_mul(bmnk.1) {
            Some(rows) => match rows.checked_mul(bmnk.2) {
                Some(elem_count) => elem_count,
                None => {
                    return false;
                },
            },
            None => {
                return false;
            },
        };
        if !HipblasMatmulConfig::is_computable(bmnk, lhs_l, rhs_l) {
            return false;
        }
        let dtype = self.dtype();
        let native = dtype == rhs.dtype() && gemm_routine(dtype).is_some()
            && HipblasMatmulConfig::new(bmnk, lhs_l, rhs_l).is_ok();
        !native || elem_count.checked_mul(dtype.element_size()).is_some()
    }

    /// How the batched product of this operand, laid out as `lhs_l`, and `rhs`,
    /// laid out as `rhs_l`, is computed. `bmnk` gives the number of products and
    /// their sizes: `m` by `k` times `k` by `n`.
    pub fn matmul(
        &self,
        rhs: &Self,
        bmnk: (usize, usize, usize, usize),
        lhs_l: &Layout,
        rhs_l: &Layout,
        order: ByteOrder,
    ) -> (plan: MatmulPlan)
        requires
            product_fits(
                self.contents().dtype,
                rhs.contents().dtype,
                bmnk,
                lhs_l,
                rhs_l,
            ),
        ensures
            plan is Native <==> is_native(
                self.contents().dtype,
                rhs.contents().dtype,
                bmnk,
                lhs_l,
                rhs_l,
            ),
            plan matches MatmulPlan::Native(work) ==> {
                &&& work.wf()
                &&& work.device@ == self.place()
                &&& work.dtype == self.contents().dtype
                &&& routine_for(work.dtype) == Some(work.routine)
                &&& work.config == HipblasMatmulConfig::of(bmnk, lhs_l, rhs_l)
                &&& work.lhs == self.buffer().ptr
                &&& work.rhs == rhs.buffer().ptr
                &&& work.elem_count == bmnk.0 * bmnk.1 * bmnk.2
                &&& work.order == order
                &&& work.stage == MatmulStage::Load
            },
    {
        let elem_count: usize = bmnk.0 * bmnk.1 * bmnk.2;
        let dtype = self.dtype();
        match (gemm_routine(dtype), HipblasMatmulConfig::new(bmnk, lhs_l, rhs_l)) {
            (Some(routine), Ok(config)) => if dtype == rhs.dtype() {
                MatmulPlan::Native(
                    NativeMatmul {
                        device: *self.device(),
                        dtype,
                        routine,
                        config,
                        lhs: self.device_ptr(),
                        rhs: rhs.device_ptr(),
                        elem_count,
                        order,
                        stage: MatmulStage::Load,
                    },
                )
            } else {
                MatmulPlan::Cpu
            },
            _ => MatmulPlan::Cpu,
        }
    }
}

/// The device computes a product exactly where both operands are of one and the
/// same type among the four that there are routines for, and their layouts are
/// accepted.
pub proof fn law_where_products_are_computed(
    lhs: DType,
    rhs: DType,
    bmnk: (usize, usize, usize, usize),
    lhs_l: &Layout,
    rhs_l: &Layout,
)
    ensures
        is_native(lhs, rhs, bmnk, lhs_l, rhs_l) <==> lhs == rhs && (lhs is BF16 || lhs is F16
            || lhs is F32 || lhs is F64) && HipblasMatmulConfig::accepted(bmnk, lhs_l, rhs_l),
{
}

/// A product fits exactly where its configuration can be computed and the number
/// of elements of the result is within the machine's range, and with it the
/// number of their bytes where it is the device that computes.
pub proof fn law_product_fits(
    lhs: DType,
    rhs: DType,
    bmnk: (usize, usize, usize, usize),
    lhs_l: &Layout,
    rhs_l: &Layout,
)
    ensures
        ({
            let (b, m, n, k) = bmnk;
            let count = b * m * n;
            product_fits(lhs, rhs, bmnk, lhs_l, rhs_l) <==> {
                &&& HipblasMatmulConfig::computable(bmnk, lhs_l, rhs_l)
                &&& b * m <= usize::MAX
                &&& count <= usize::MAX
                &&& is_native(lhs, rhs, bmnk, lhs_l, rhs_l) && (lhs is BF16 || lhs is F16) ==> count
                    * 2 <= usize::MAX
                &&& is_native(lhs, rhs, bmnk, lhs_l, rhs_l) && lhs is F32 ==> count * 4
                    <= usize::MAX
                &&& is_native(lhs, rhs, bmnk, lhs_l, rhs_l) && lhs is F64 ==> count * 8
                    <= usize::MAX
            }
        }),
{
}

/// A product that can come up is computed by the routine for its type, into
/// memory that the machine can address.
pub proof fn law_products_have_their_routine(op: NativeMatmul)
    requires
        op.wf(),
    ensures
        op.dtype is BF16 || op.dtype is F16 || op.dtype is F32 || op.dtype is F64,
        routine_for(op.dtype) == Some(op.routine),
        op.elem_count * op.dtype.width() <= usize::MAX,
{
}

/// What is said of a type without a routine names it.
pub proof fn law_unsupported(dtype: DType)
    ensures
        unsupported_text(dtype) == "unsupported native ROCm matmul dtype "@ + dtype.name_text(),
{
}

} // verus!
