//! What holds of whole runs of operations, from the first request to the end.

use crate::device::{
    DeviceOpening, OpeningStage, RocmDevice, Synchronizing, SynchronizingStage,
};
use crate::error::{BackendError, Error};
use crate::hip::HipMemcpyKind;
use crate::layout::Layout;
use crate::library::Platform;
use crate::matmul::{GemmCall, HipblasMatmulConfig};
use crate::native::{Download, MatmulStage, NativeMatmul};
use crate::operation::{Operation, Reply, Request};
use crate::probe::{probe_status, DeviceProbe};
use crate::product::law_config_sizes;
use crate::rocm_storage::{
    uploads, RawRocmBuffer, Release, ReleaseStage, RocmStorage, Upload, UploadStage,
};
use crate::storage::{
    law_byte_at, law_bytes_round_trip, law_elements_round_trip, ByteOrder, CpuStorage, DType,
    StorageModel,
};
use crate::text::decimal;
use vstd::arithmetic::power::pow;
use vstd::prelude::*;

verus! {

/// `op` may run as `log` tells and end with `output`.
pub open spec fn run<O: Operation>(op: O, log: Seq<(Request, Reply)>, output: O::Output) -> bool
    decreases log.len(),
{
    &&& log.len() > 0
    &&& log[0].0 == op.pending()
    &&& op.pending().takes(log[0].1)
    &&& match op.next(log[0].1) {
        Some(next) => run(next, log.drop_first(), output),
        None => log.len() == 1 && op.ends_with(log[0].1, output),
    }
}

/// The requests of a log.
pub open spec fn requests(log: Seq<(Request, Reply)>) -> Seq<Request> {
    log.map_values(|entry: (Request, Reply)| entry.0)
}

/// The addresses of the memory that was allocated.
pub open spec fn allocated(log: Seq<(Request, Reply)>) -> Seq<usize>
    decreases log.len(),
{
    if log.len() == 0 {
        seq![]
    } else {
        (match log[0] {
            (Request::Malloc { .. }, Reply::Pointer(Ok(ptr))) => seq![ptr],
            _ => seq![],
        }) + allocated(log.drop_first())
    }
}

/// The addresses of the memory that was released.
pub open spec fn released(log: Seq<(Request, Reply)>) -> Seq<usize>
    decreases log.len(),
{
    if log.len() == 0 {
        seq![]
    } else {
        (match log[0].0 {
            Request::Free { ptr } => seq![ptr],
            _ => seq![],
        }) + released(log.drop_first())
    }
}

/// The address of the memory that is handed out, where any is.
pub open spec fn handed_out(output: Result<RocmStorage, BackendError>) -> Seq<usize> {
    match output {
        Ok(storage) => seq![storage.buffer().ptr],
        Err(_) => seq![],
    }
}

/// Every operation comes to an end: it makes no more requests than it says at its beginning.
pub proof fn law_runs_end<O: Operation>(op: O, log: Seq<(Request, Reply)>, output: O::Output)
    requires
        op.wf(),
        run(op, log, output),
    ensures
        log.len() <= op.requests_left(),
    decreases log.len(),
{
    op.lemma_goes_on(log[0].1);
    match op.next(log[0].1) {
        Some(next) => {
            law_runs_end(next, log.drop_first(), output);
        },
        None => {
        },
    }
}

/// The address that a product holds at this stage.
spec fn held(op: NativeMatmul) -> Seq<usize> {
    match op.stage {
        MatmulStage::Multiply { out, .. } => seq![out],
        MatmulStage::Fetch { out } => seq![out],
        MatmulStage::Release { out, .. } => seq![out],
        _ => seq![],
    }
}

proof fn lemma_matmul_ledger(
    op: NativeMatmul,
    log: Seq<(Request, Reply)>,
    output: Result<RocmStorage, BackendError>,
)
    requires
        run(op, log, output),
    ensures
        held(op) + allocated(log) == released(log) + handed_out(output),
    decreases log.len(),
{
    let rest = log.drop_first();
    match op.next(log[0].1) {
        Some(next) => {
            lemma_matmul_ledger(next, rest, output);
            assert(held(op) + allocated(log) =~= released(log) + handed_out(output));
        },
        None => {
            assert(allocated(rest) =~= seq![]);
            assert(released(rest) =~= seq![]);
            assert(held(op) + allocated(log) =~= released(log) + handed_out(output));
        },
    }
}

/// A product on the device loses no memory: what it allocates it either hands
/// out with the result or, where it fails, has released.
pub proof fn law_matmul_loses_no_memory(
    op: NativeMatmul,
    log: Seq<(Request, Reply)>,
    output: Result<RocmStorage, BackendError>,
)
    requires
        op.stage == MatmulStage::Load,
        run(op, log, output),
    ensures
        allocated(log) == released(log) + handed_out(output),
        output is Ok ==> released(log) == Seq::<usize>::empty(),
{
    lemma_matmul_ledger(op, log, output);
    assert(held(op) + allocated(log) =~= allocated(log));
    if output is Ok {
        lemma_matmul_success_releases_nothing(op, log, output);
    }
}

proof fn lemma_matmul_success_releases_nothing(
    op: NativeMatmul,
    log: Seq<(Request, Reply)>,
    output: Result<RocmStorage, BackendError>,
)
    requires
        run(op, log, output),
        output is Ok,
    ensures
        released(log) == Seq::<usize>::empty(),
        !(op.stage is Release),
    decreases log.len(),
{
    let rest = log.drop_first();
    match op.next(log[0].1) {
        Some(next) => {
            lemma_matmul_success_releases_nothing(next, rest, output);
        },
        None => {
            assert(released(rest) =~= seq![]);
        },
    }
    assert(released(log) =~= Seq::<usize>::empty());
}

/// `log` has its first failure at `at`.
pub open spec fn first_failure(log: Seq<(Request, Reply)>, at: int) -> bool {
    &&& 0 <= at < log.len()
    &&& log[at].1.failure() is Some
    &&& forall|i: int| 0 <= i < at ==> (#[trigger] log[i]).1.failure() is None
}

/// A product that fails reports the first error that was answered, whatever
/// comes of releasing its memory.
pub proof fn law_matmul_reports_first_failure(
    op: NativeMatmul,
    log: Seq<(Request, Reply)>,
    output: Result<RocmStorage, BackendError>,
)
    requires
        op.stage == MatmulStage::Load,
        run(op, log, output),
        output is Err,
    ensures
        exists|at: int| #[trigger]
            first_failure(log, at) && output->Err_0 == BackendError::Wrapped(
                log[at].1.failure()->0,
            ),
{
    lemma_matmul_first_failure(op, log, output);
}

proof fn lemma_matmul_first_failure(
    op: NativeMatmul,
    log: Seq<(Request, Reply)>,
    output: Result<RocmStorage, BackendError>,
)
    requires
        !(op.stage is Release),
        run(op, log, output),
        output is Err,
    ensures
        exists|at: int| #[trigger]
            first_failure(log, at) && output->Err_0 == BackendError::Wrapped(
                log[at].1.failure()->0,
            ),
    decreases log.len(),
{
    if log[0].1.failure() is Some {
        assert(first_failure(log, 0));
        if op.next(log[0].1) is Some {
            assert(run(op.next(log[0].1)->0, log.drop_first(), output));
        }
        assert(output->Err_0 == BackendError::Wrapped(log[0].1.failure()->0));
    } else {
        let rest = log.drop_first();
        let next = op.next(log[0].1)->0;
        lemma_matmul_first_failure(next, rest, output);
        let at = choose|at: int| #[trigger]
            first_failure(rest, at) && output->Err_0 == BackendError::Wrapped(
                rest[at].1.failure()->0,
            );
        assert forall|i: int| 0 <= i < at + 1 implies (#[trigger] log[i]).1.failure() is None by {
            if i > 0 {
                assert(log[i] == rest[i - 1]);
            }
        }
        assert(first_failure(log, at + 1));
    }
}

/// Every reply but the last was a success.
pub open spec fn fails_last(log: Seq<(Request, Reply)>) -> bool {
    forall|i: int| 0 <= i < log.len() - 1 ==> (#[trigger] log[i]).1.failure() is None
}

/// The requests of opening a device.
pub open spec fn opening_script(ordinal: usize) -> Seq<Request> {
    seq![
        Request::LoadRuntime,
        Request::Init { flags: 0 },
        Request::SetDevice { ordinal: ordinal as i32 },
        Request::DeviceCount,
    ]
}

/// Opening a device asks its four questions in order and stops at the first
/// error, which it reports. It succeeds exactly where there is none and the
/// number of the device is below the number of devices.
pub proof fn law_opening(
    ordinal: usize,
    log: Seq<(Request, Reply)>,
    output: Result<RocmDevice, BackendError>,
)
    requires
        run(DeviceOpening { ordinal, stage: OpeningStage::Load }, log, output),
    ensures
        1 <= log.len() <= 4,
        requests(log) == opening_script(ordinal).take(log.len() as int),
        fails_last(log),
        output is Ok <==> log.last().1.failure() is None && ordinal < log.last().1.count() as usize,
        output matches Ok(device) ==> log.len() == 4 && device@ == ordinal,
        log.last().1.failure() matches Some(e) ==> output == Err::<RocmDevice, BackendError>(
            BackendError::Wrapped(e),
        ),
        log.last().1.failure() is None && output is Err ==> (output matches Err(
            BackendError::Msg(text),
        ) && text@ == "ROCm device ordinal "@ + decimal(ordinal as nat)
            + " out of range, available devices: "@ + decimal(
            (log.last().1.count() as usize) as nat,
        )),
{
    let op = DeviceOpening { ordinal, stage: OpeningStage::Load };
    let l1 = log.drop_first();
    let l2 = l1.drop_first();
    let l3 = l2.drop_first();
    if op.next(log[0].1) is Some {
        let op1 = op.next(log[0].1)->0;
        assert(run(op1, l1, output));
        if op1.next(l1[0].1) is Some {
            let op2 = op1.next(l1[0].1)->0;
            assert(run(op2, l2, output));
            if op2.next(l2[0].1) is Some {
                let op3 = op2.next(l2[0].1)->0;
                assert(run(op3, l3, output));
                assert(l3.len() == 1);
            }
        }
    }
    assert(requests(log) =~= opening_script(ordinal).take(log.len() as int));
}

/// The requests of waiting for a device.
pub open spec fn synchronizing_script(ordinal: usize) -> Seq<Request> {
    seq![
        Request::LoadRuntime,
        Request::Init { flags: 0 },
        Request::SetDevice { ordinal: ordinal as i32 },
        Request::Synchronize,
    ]
}

/// Waiting for a device asks its four questions in order and stops at the first
/// error, which it reports. It succeeds exactly where there is none.
pub proof fn law_synchronizing(
    ordinal: usize,
    log: Seq<(Request, Reply)>,
    output: Result<(), BackendError>,
)
    requires
        run(Synchronizing { ordinal, stage: SynchronizingStage::Load }, log, output),
    ensures
        1 <= log.len() <= 4,
        requests(log) == synchronizing_script(ordinal).take(log.len() as int),
        fails_last(log),
        output is Ok <==> log.last().1.failure() is None,
        output is Ok ==> log.len() == 4,
        log.last().1.failure() matches Some(e) ==> output == Err::<(), BackendError>(
            BackendError::Wrapped(e),
        ),
{
    let op = Synchronizing { ordinal, stage: SynchronizingStage::Load };
    let l1 = log.drop_first();
    let l2 = l1.drop_first();
    let l3 = l2.drop_first();
    if op.next(log[0].1) is Some {
        let op1 = op.next(log[0].1)->0;
        assert(run(op1, l1, output));
        if op1.next(l1[0].1) is Some {
            let op2 = op1.next(l1[0].1)->0;
            assert(run(op2, l2, output));
            if op2.next(l2[0].1) is Some {
                let op3 = op2.next(l2[0].1)->0;
                assert(run(op3, l3, output));
                assert(l3.len() == 1);
            }
        }
    }
    assert(requests(log) =~= synchronizing_script(ordinal).take(log.len() as int));
}

/// Probing asks its three questions in order and stops at the first error, which
/// it reports. It succeeds exactly where there is none, with the number of devices.
pub proof fn law_probing(log: Seq<(Request, Reply)>, output: Result<i32, Error>)
    requires
        run(DeviceProbe::Load, log, output),
    ensures
        1 <= log.len() <= 3,
        requests(log) == seq![
            Request::LoadRuntime,
            Request::Init { flags: 0 },
            Request::DeviceCount,
        ].take(log.len() as int),
        fails_last(log),
        match log.last().1.failure() {
            Some(e) => output == Err::<i32, Error>(e),
            None => log.len() == 3 && output == Ok::<i32, Error>(log.last().1.count()),
        },
{
    let op = DeviceProbe::Load;
    let l1 = log.drop_first();
    let l2 = l1.drop_first();
    if op.next(log[0].1) is Some {
        let op1 = op.next(log[0].1)->0;
        assert(run(op1, l1, output));
        if op1.next(l1[0].1) is Some {
            let op2 = op1.next(l1[0].1)->0;
            assert(run(op2, l2, output));
            assert(l2.len() == 1);
        }
    }
    assert(requests(log) =~= seq![
        Request::LoadRuntime,
        Request::Init { flags: 0 },
        Request::DeviceCount,
    ].take(log.len() as int));
}

/// A probe reports a device exactly where every question was answered and there
/// is one.
pub proof fn law_probe_status(
    platform: Platform,
    log: Seq<(Request, Reply)>,
    output: Result<i32, Error>,
)
    requires
        platform != Platform::Other,
        run(DeviceProbe::Load, log, output),
    ensures
        probe_status(platform, output) == 0 <==> log.last().1.failure() is None
            && log.last().1.count() > 0,
{
    law_probing(log, output);
}

/// The status is zero exactly where HIP is supported and some device was
/// counted, and otherwise one.
pub proof fn law_probe_outcomes(platform: Platform, count: i32, error: Error)
    ensures
        probe_status(platform, Ok(count)) == if count > 0 && (platform is Linux
            || platform is WindowsX64) {
            0i32
        } else {
            1
        },
        probe_status(platform, Err(error)) == 1,
{
}

/// The requests of an upload of `size` bytes that is given memory at `ptr`.
pub open spec fn upload_script(place: usize, size: usize, ptr: usize) -> Seq<Request> {
    let selected = seq![
        Request::LoadRuntime,
        Request::Init { flags: 0 },
        Request::SetDevice { ordinal: place as i32 },
    ];
    if size == 0 {
        selected
    } else {
        selected.push(Request::Malloc { size }).push(
            Request::CopyIn { dst: ptr, size, kind: HipMemcpyKind::HostToDevice },
        )
    }
}

/// An upload makes its requests in order and stops at the first error, which it
/// reports. It succeeds exactly where there is none, and then the storage holds
/// the data that was handed in, on the device that was asked for, in the memory
/// that was allocated for it.
pub proof fn law_upload(
    upload: Upload,
    place: usize,
    contents: StorageModel,
    order: ByteOrder,
    log: Seq<(Request, Reply)>,
    output: Result<RocmStorage, BackendError>,
)
    requires
        upload.begins(place, contents, order),
        run(upload, log, output),
    ensures
        ({
            let size = contents.byte_len() as usize;
            let ptr = if size == 0 {
                0
            } else {
                log[3].1.pointer()
            };
            let script = upload_script(place, size, ptr);
            &&& 1 <= log.len() <= script.len()
            &&& requests(log) == script.take(log.len() as int)
            &&& fails_last(log)
            &&& output is Ok <==> log.last().1.failure() is None
            &&& output is Ok ==> log.len() == script.len()
            &&& log.last().1.failure() matches Some(e) ==> output == Err::<
                RocmStorage,
                BackendError,
            >(BackendError::Wrapped(e))
            &&& output matches Ok(storage) ==> {
                &&& storage.contents() == contents
                &&& storage.place() == place
                &&& storage.buffer() == (RawRocmBuffer { ptr, len_bytes: size, ordinal: place })
                &&& released(log) == Seq::<usize>::empty()
                &&& allocated(log) == if size == 0 {
                    Seq::<usize>::empty()
                } else {
                    seq![ptr]
                }
            }
        }),
{
    broadcast use Upload::lemma_at;

    upload.lemma_fits();
    let size = contents.byte_len() as usize;
    let l1 = log.drop_first();
    let l2 = l1.drop_first();
    let l3 = l2.drop_first();
    let l4 = l3.drop_first();
    let ptr = if size == 0 {
        0
    } else {
        log[3].1.pointer()
    };
    if upload.next(log[0].1) is Some {
        let op1 = upload.next(log[0].1)->0;
        assert(run(op1, l1, output));
        if op1.next(l1[0].1) is Some {
            let op2 = op1.next(l1[0].1)->0;
            assert(run(op2, l2, output));
            if op2.next(l2[0].1) is Some {
                let op3 = op2.next(l2[0].1)->0;
                assert(run(op3, l3, output));
                if op3.next(l3[0].1) is Some {
                    let op4 = op3.next(l3[0].1)->0;
                    assert(run(op4, l4, output));
                    assert(l4.len() == 1);
                }
            }
        }
    }
    let script = upload_script(place, size, ptr);
    assert(requests(log) =~= script.take(log.len() as int));
    if output is Ok {
        reveal_with_fuel(allocated, 6);
        reveal_with_fuel(released, 6);
        assert(released(log) =~= Seq::<usize>::empty());
        assert(allocated(log) =~= if size == 0 {
            Seq::<usize>::empty()
        } else {
            seq![ptr]
        });
    }
}

/// What the host computes is what the device then holds: where work on the host
/// is brought to a device and that succeeds, the storage there holds the data
/// that was computed, and it fails only with an error of the libraries.
pub proof fn law_host_work(
    result: Result<Upload, BackendError>,
    place: usize,
    computed: Result<CpuStorage, BackendError>,
    order: ByteOrder,
    log: Seq<(Request, Reply)>,
    output: Result<RocmStorage, BackendError>,
)
    requires
        uploads(result, place, computed, order),
        result matches Ok(upload) && run(upload, log, output),
    ensures
        computed is Ok,
        match output {
            Ok(storage) => storage.contents() == computed->Ok_0@ && storage.place() == place,
            Err(e) => e is Wrapped,
        },
{
    law_upload(result->Ok_0, place, computed->Ok_0@, order, log, output);
}

/// What is brought to a device and fetched from there again is the same: where
/// the memory still holds the bytes that were copied in, the elements that are
/// read from it are those that were handed in.
pub proof fn law_fetch_gives_back_upload(download: Download, contents: StorageModel)
    requires
        contents.wf(),
        download.dtype == contents.dtype,
        download.elem_count == contents.bits.len(),
    ensures
        download.elements(contents.bytes(download.order)) == contents,
{
    law_bytes_round_trip(contents, download.order);
    assert(download.elements(contents.bytes(download.order)) =~= contents);
}

/// A product that succeeds has made these requests: it selected its device, and
/// multiplied the operands into memory of the size of the result. The storage
/// holds what was fetched from that memory.
pub proof fn law_matmul_success(
    op: NativeMatmul,
    log: Seq<(Request, Reply)>,
    output: Result<RocmStorage, BackendError>,
)
    requires
        op.stage == MatmulStage::Load,
        run(op, log, output),
        output is Ok,
    ensures
        log.len() == 8,
        ({
            let handle = log[4].1.pointer();
            let out = log[5].1.pointer();
            let storage = output->Ok_0;
            &&& requests(log) == seq![
                Request::LoadRuntime,
                Request::Init { flags: 0 },
                Request::SetDevice { ordinal: op.device@ as i32 },
                Request::LoadBlas,
                Request::CreateHandle,
                Request::Malloc { size: (op.elem_count * op.dtype.width()) as usize },
                Request::Gemm {
                    call: GemmCall {
                        routine: op.routine,
                        config: op.config,
                        handle,
                        a: op.rhs,
                        b: op.lhs,
                        c: out,
                    },
                },
                Request::CopyOut {
                    src: out,
                    size: (op.elem_count * op.dtype.width()) as usize,
                    kind: HipMemcpyKind::DeviceToHost,
                },
            ]
            &&& forall|i: int| 0 <= i < 8 ==> (#[trigger] log[i]).1.failure() is None
            &&& storage.contents() == (StorageModel {
                dtype: op.dtype,
                bits: op.order.decode_all(op.dtype.width(), log[7].1.bytes()),
            })
            &&& storage.place() == op.device@
            &&& storage.buffer() == (RawRocmBuffer {
                ptr: out,
                len_bytes: (op.elem_count * op.dtype.width()) as usize,
                ordinal: op.device@,
            })
        }),
{
    let handle = log[4].1.pointer();
    let out = log[5].1.pointer();
    let l1 = log.drop_first();
    let l2 = l1.drop_first();
    let l3 = l2.drop_first();
    let l4 = l3.drop_first();
    let l5 = l4.drop_first();
    let l6 = l5.drop_first();
    let l7 = l6.drop_first();
    let op1 = op.at(MatmulStage::Init);
    assert(run(op1, l1, output));
    let op2 = op.at(MatmulStage::Select);
    assert(run(op2, l2, output));
    let op3 = op.at(MatmulStage::LoadBlas);
    assert(run(op3, l3, output));
    let op4 = op.at(MatmulStage::Handle);
    assert(run(op4, l4, output));
    let op5 = op.at(MatmulStage::Allocate { handle });
    assert(run(op5, l5, output));
    let op6 = op.at(MatmulStage::Multiply { handle, out });
    assert(run(op6, l6, output));
    if l6[0].1.failure() is Some {
        lemma_matmul_success_releases_nothing(op6.next(l6[0].1)->0, l7, output);
    }
    let op7 = op.at(MatmulStage::Fetch { out });
    assert(run(op7, l7, output));
    if l7[0].1.failure() is Some {
        lemma_matmul_success_releases_nothing(op7.next(l7[0].1)->0, l7.drop_first(), output);
    }
    assert(l7.len() == 1);
    assert(requests(log) =~= seq![
        Request::LoadRuntime,
        Request::Init { flags: 0 },
        Request::SetDevice { ordinal: op.device@ as i32 },
        Request::LoadBlas,
        Request::CreateHandle,
        Request::Malloc { size: (op.elem_count * op.dtype.width()) as usize },
        Request::Gemm {
            call: GemmCall {
                routine: op.routine,
                config: op.config,
                handle,
                a: op.rhs,
                b: op.lhs,
                c: out,
            },
        },
        Request::CopyOut {
            src: out,
            size: (op.elem_count * op.dtype.width()) as usize,
            kind: HipMemcpyKind::DeviceToHost,
        },
    ]);
}

/// Where the runtime loads, releasing memory asks for exactly that, on the
/// memory's own device, whatever is answered on the way.
pub proof fn law_release(buffer: RawRocmBuffer, log: Seq<(Request, Reply)>)
    requires
        run(Release { buffer, stage: ReleaseStage::Load }, log, ()),
    ensures
        requests(log) == seq![
            Request::LoadRuntime,
            Request::Init { flags: 0 },
            Request::SetDevice { ordinal: buffer.ordinal as i32 },
            Request::Free { ptr: buffer.ptr },
        ].take(
            if log[0].1.failure() is Some {
                1
            } else {
                4
            },
        ),
{
    let op = Release { buffer, stage: ReleaseStage::Load };
    let l1 = log.drop_first();
    let l2 = l1.drop_first();
    let l3 = l2.drop_first();
    if log[0].1.failure() is None {
        assert(run(Release { stage: ReleaseStage::Init, ..op }, l1, ()));
        assert(run(Release { stage: ReleaseStage::Select, ..op }, l2, ()));
        assert(run(Release { stage: ReleaseStage::Free, ..op }, l3, ()));
        assert(l3.len() == 1);
    }
    assert(requests(log) =~= seq![
        Request::LoadRuntime,
        Request::Init { flags: 0 },
        Request::SetDevice { ordinal: buffer.ordinal as i32 },
        Request::Free { ptr: buffer.ptr },
    ].take(
        if log[0].1.failure() is Some {
            1
        } else {
            4
        },
    ));
}

/// Work on the host that fails is not brought anywhere: it ends with its own
/// error. Work that succeeds is always brought to the device.
pub proof fn law_host_failures(
    result: Result<Upload, BackendError>,
    place: usize,
    computed: Result<CpuStorage, BackendError>,
    order: ByteOrder,
)
    requires
        uploads(result, place, computed, order),
    ensures
        computed matches Err(e) ==> result == Err::<Upload, BackendError>(e),
        computed matches Ok(data) ==> (result matches Ok(upload) && upload.begins(
            place,
            data@,
            order,
        )),
{
}

/// The operation after the first `k` replies of a log.
pub open spec fn after<O: Operation>(op: O, log: Seq<(Request, Reply)>, k: nat) -> O
    decreases k,
{
    if k == 0 {
        op
    } else {
        after(op.next(log[0].1)->0, log.drop_first(), (k - 1) as nat)
    }
}

/// An upload's data and byte order stay what they are as it goes on.
proof fn lemma_upload_keeps_data(
    upload: Upload,
    log: Seq<(Request, Reply)>,
    output: Result<RocmStorage, BackendError>,
    k: nat,
)
    requires
        run(upload, log, output),
        k < log.len(),
    ensures
        after(upload, log, k).contents() == upload.contents(),
        after(upload, log, k).order() == upload.order(),
        after(upload, log, k).pending() == log[k as int].0,
    decreases k,
{
    broadcast use Upload::lemma_at;

    if k > 0 {
        let next = upload.next(log[0].1)->0;
        assert(run(next, log.drop_first(), output));
        lemma_upload_keeps_data(next, log.drop_first(), output, (k - 1) as nat);
        assert(log.drop_first()[k - 1] == log[k as int]);
    }
}

/// The bytes that an upload copies to the device are its elements, one after the
/// other, in the byte order that was asked for: whenever it asks for the copy it
/// has as many bytes ready as it says, and byte `j` of the element number `i` is
/// a digit of that element to the base 256, counted from the end that the order
/// puts first.
pub proof fn law_upload_bytes(
    upload: Upload,
    place: usize,
    contents: StorageModel,
    order: ByteOrder,
    log: Seq<(Request, Reply)>,
    output: Result<RocmStorage, BackendError>,
    k: nat,
    i: int,
    j: int,
)
    requires
        upload.begins(place, contents, order),
        run(upload, log, output),
        k < log.len(),
        0 <= i < contents.bits.len(),
        0 <= j < contents.dtype.width(),
    ensures
        ({
            let width = contents.dtype.width() as int;
            let bytes = after(upload, log, k).payload();
            &&& bytes.len() == contents.bits.len() * width
            &&& log[k as int].0 matches Request::CopyIn { size, .. } ==> size == bytes.len()
            &&& 0 <= i * width + j < bytes.len()
            &&& order is LittleEndian ==> bytes[i * width + j] as int == (contents.bits[i] as int
                / pow(256, j as nat)) % 256
            &&& order is BigEndian ==> bytes[i * width + j] as int == (contents.bits[i] as int
                / pow(256, (width - 1 - j) as nat)) % 256
        }),
{
    lemma_upload_keeps_data(upload, log, output, k);
    law_byte_at(contents, order, i, j);
    upload.lemma_fits();
    let now = after(upload, log, k);
    assert(now.pending() == log[k as int].0);
}

/// What was uploaded can be fetched: the bytes that an upload has ready, read in
/// its byte order, are the elements that were handed in, and those alone.
pub proof fn law_upload_can_be_fetched(
    upload: Upload,
    place: usize,
    contents: StorageModel,
    order: ByteOrder,
    log: Seq<(Request, Reply)>,
    output: Result<RocmStorage, BackendError>,
    k: nat,
)
    requires
        upload.begins(place, contents, order),
        contents.wf(),
        run(upload, log, output),
        k < log.len(),
    ensures
        order.decode_all(contents.dtype.width(), after(upload, log, k).payload()) == contents.bits,
{
    lemma_upload_keeps_data(upload, log, output, k);
    law_bytes_round_trip(contents, order);
}

/// Fetching makes one request, for all the bytes of the elements from where they
/// lie. It passes on an error, and otherwise gives the elements whose bytes, in
/// the byte order that was asked for, are those that were answered.
pub proof fn law_fetching(
    download: Download,
    log: Seq<(Request, Reply)>,
    output: Result<CpuStorage, BackendError>,
)
    requires
        download.wf(),
        run(download, log, output),
    ensures
        log.len() == 1,
        log[0].0 == (Request::CopyOut {
            src: download.src,
            size: (download.elem_count * download.dtype.width()) as usize,
            kind: HipMemcpyKind::DeviceToHost,
        }),
        log[0].1.failure() matches Some(e) ==> output == Err::<CpuStorage, BackendError>(
            BackendError::Wrapped(e),
        ),
        log[0].1.failure() is None ==> (output matches Ok(shadow) && shadow@.dtype == download.dtype
            && shadow@.bits.len() == download.elem_count && shadow@.bytes(download.order)
            == log[0].1.bytes()),
{
    if log[0].1.failure() is None {
        lemma_fetched(download.dtype, download.elem_count, download.order, log[0].1.bytes());
    }
}

/// As many bytes as some elements take spell that many elements, with those bytes.
proof fn lemma_fetched(dtype: DType, elem_count: usize, order: ByteOrder, bytes: Seq<u8>)
    requires
        bytes.len() == elem_count * dtype.width(),
    ensures
        order.decode_all(dtype.width(), bytes).len() == elem_count,
        (StorageModel { dtype, bits: order.decode_all(dtype.width(), bytes) }).bytes(order)
            == bytes,
{
    let width = dtype.width();
    vstd::arithmetic::div_mod::lemma_div_by_multiple(elem_count as int, width as int);
    vstd::arithmetic::div_mod::lemma_mod_multiples_basic(elem_count as int, width as int);
    law_elements_round_trip(bytes, width, order);
}

/// The result of a product is what the device holds: the elements of the
/// product's own type, as many as it has, whose bytes in the product's own byte
/// order are those that were copied out. So where the device holds the bytes of
/// some elements, those elements are the result.
pub proof fn law_matmul_result(
    op: NativeMatmul,
    log: Seq<(Request, Reply)>,
    output: Result<RocmStorage, BackendError>,
    model: StorageModel,
)
    requires
        op.stage == MatmulStage::Load,
        op.wf(),
        run(op, log, output),
        output is Ok,
    ensures
        log.len() == 8,
        output->Ok_0.contents().dtype == op.dtype,
        output->Ok_0.contents().bits.len() == op.elem_count,
        output->Ok_0.contents().bytes(op.order) == log[7].1.bytes(),
        model.wf() && model.dtype == op.dtype && log[7].1.bytes() == model.bytes(op.order)
            ==> output->Ok_0.contents() == model,
{
    law_matmul_success(op, log, output);
    assert(requests(log)[7] == log[7].0);
    lemma_log_is_answered(op, log, output, 7);
    lemma_fetched(op.dtype, op.elem_count, op.order, log[7].1.bytes());
    if model.wf() && model.dtype == op.dtype && log[7].1.bytes() == model.bytes(op.order) {
        law_bytes_round_trip(model, op.order);
        assert(output->Ok_0.contents() =~= model);
    }
}

/// Every entry of a log is a request with an answer to it.
proof fn lemma_log_is_answered<O: Operation>(
    op: O,
    log: Seq<(Request, Reply)>,
    output: O::Output,
    k: int,
)
    requires
        run(op, log, output),
        0 <= k < log.len(),
    ensures
        log[k].0.takes(log[k].1),
    decreases k,
{
    if k > 0 {
        lemma_log_is_answered(op.next(log[0].1)->0, log.drop_first(), output, k - 1);
        assert(log.drop_first()[k - 1] == log[k]);
    }
}

/// A product on the device computes all that was asked for: one call of the
/// library, for every one of the `b` products and with the sizes of each, reading
/// the right operand as its first matrix and the left one as its second, and
/// writing to the memory that was allocated for exactly that many elements.
pub proof fn law_matmul_call(
    op: NativeMatmul,
    bmnk: (usize, usize, usize, usize),
    lhs_l: &Layout,
    rhs_l: &Layout,
    log: Seq<(Request, Reply)>,
    output: Result<RocmStorage, BackendError>,
)
    requires
        op.stage == MatmulStage::Load,
        op.config == HipblasMatmulConfig::of(bmnk, lhs_l, rhs_l),
        op.elem_count == bmnk.0 * bmnk.1 * bmnk.2,
        bmnk.0 <= i32::MAX && bmnk.1 <= i32::MAX && bmnk.2 <= i32::MAX && bmnk.3 <= i32::MAX,
        run(op, log, output),
        output is Ok,
    ensures
        log.len() == 8,
        log[5].0 == (Request::Malloc {
            size: (bmnk.0 * bmnk.1 * bmnk.2 * op.dtype.width()) as usize,
        }),
        log[6].0 matches Request::Gemm { call } && {
            &&& call.routine == op.routine
            &&& call.handle == log[4].1.pointer()
            &&& call.a == op.rhs
            &&& call.b == op.lhs
            &&& call.c == log[5].1.pointer()
            &&& call.config.batch_count == bmnk.0
            &&& call.config.n == bmnk.1
            &&& call.config.m == bmnk.2
            &&& call.config.k == bmnk.3
            &&& call.config == HipblasMatmulConfig::of(bmnk, lhs_l, rhs_l)
        },
{
    law_matmul_success(op, log, output);
    assert(requests(log)[5] == log[5].0);
    assert(requests(log)[6] == log[6].0);
    law_config_sizes(bmnk, lhs_l, rhs_l);
}

/// The requests of a product that is given this handle and memory, up to the end
/// of one that succeeds.
pub open spec fn matmul_script(op: NativeMatmul, handle: usize, out: usize) -> Seq<Request> {
    let size = (op.elem_count * op.dtype.width()) as usize;
    seq![
        Request::LoadRuntime,
        Request::Init { flags: 0 },
        Request::SetDevice { ordinal: op.device@ as i32 },
        Request::LoadBlas,
        Request::CreateHandle,
        Request::Malloc { size },
        Request::Gemm {
            call: GemmCall {
                routine: op.routine,
                config: op.config,
                handle,
                a: op.rhs,
                b: op.lhs,
                c: out,
            },
        },
        Request::CopyOut { src: out, size, kind: HipMemcpyKind::DeviceToHost },
    ]
}

/// A product that fails goes no further than its first failure, but for the
/// release of its memory: it has made the requests up to there, and then, where
/// the memory had been allocated, the one that releases it and no other.
pub proof fn law_matmul_stops_at_failure(
    op: NativeMatmul,
    log: Seq<(Request, Reply)>,
    output: Result<RocmStorage, BackendError>,
    at: int,
)
    requires
        op.stage == MatmulStage::Load,
        run(op, log, output),
        first_failure(log, at),
    ensures
        ({
            let out = log[5].1.pointer();
            &&& at < 8
            &&& requests(log).take(at + 1) == matmul_script(op, log[4].1.pointer(), out).take(at + 1)
            &&& at < 6 ==> log.len() == at + 1
            &&& at >= 6 ==> log.len() == at + 2 && log[at + 1].0 == (Request::Free { ptr: out })
            &&& output == Err::<RocmStorage, BackendError>(
                BackendError::Wrapped(log[at].1.failure()->0),
            )
        }),
{
    let handle = log[4].1.pointer();
    let out = log[5].1.pointer();
    let script = matmul_script(op, handle, out);
    let l1 = log.drop_first();
    let l2 = l1.drop_first();
    let l3 = l2.drop_first();
    let l4 = l3.drop_first();
    let l5 = l4.drop_first();
    let l6 = l5.drop_first();
    let l7 = l6.drop_first();
    let l8 = l7.drop_first();
    if at > 0 {
        assert(log[0].1.failure() is None);
        assert(run(op.at(MatmulStage::Init), l1, output));
    }
    if at > 1 {
        assert(log[1].1.failure() is None);
        assert(run(op.at(MatmulStage::Select), l2, output));
    }
    if at > 2 {
        assert(log[2].1.failure() is None);
        assert(run(op.at(MatmulStage::LoadBlas), l3, output));
    }
    if at > 3 {
        assert(log[3].1.failure() is None);
        assert(run(op.at(MatmulStage::Handle), l4, output));
    }
    if at > 4 {
        assert(log[4].1.failure() is None);
        assert(run(op.at(MatmulStage::Allocate { handle }), l5, output));
    }
    if at > 5 {
        assert(log[5].1.failure() is None);
        assert(run(op.at(MatmulStage::Multiply { handle, out }), l6, output));
    }
    if at > 6 {
        assert(log[6].1.failure() is None);
        assert(run(op.at(MatmulStage::Fetch { out }), l7, output));
    }
    if at >= 6 && at < 8 {
        let error = BackendError::Wrapped(log[at].1.failure()->0);
        let rest = if at == 6 {
            l7
        } else {
            l8
        };
        assert(run(op.at(MatmulStage::Release { out, error }), rest, output));
        assert(rest.len() == 1);
        assert(rest[0] == log[at + 1]);
    }
    if at == 7 {
        assert(l7[0] == log[7]);
    }
    assert(requests(log).take(at + 1) =~= script.take(at + 1));
}

} // verus!
