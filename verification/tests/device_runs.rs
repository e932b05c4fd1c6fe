use rocm_backend::device::{DeviceLocation, RocmDevice};
use rocm_backend::error::{BackendError, Error};
use rocm_backend::hip::{HipMemcpyKind, HipRuntime};
use rocm_backend::layout::Layout;
use rocm_backend::library::Platform;
use rocm_backend::matmul::{GemmCall, GemmRoutine, HipblasOperation};
use rocm_backend::native::{download_shadow, MatmulPlan};
use rocm_backend::operation::{Operation, Reply, Request, Step};
use rocm_backend::probe::inferrs_backend_probe;
use rocm_backend::rocm_storage::{RawRocmBuffer, RocmStorage, Upload};
use rocm_backend::storage::{ByteOrder, CpuStorage, DType};
use std::collections::BTreeMap;

const ORDER: ByteOrder = ByteOrder::LittleEndian;

/// A machine with devices, in host memory.
struct Machine {
    devices: i32,
    memory: BTreeMap<usize, Vec<u8>>,
    next_address: usize,
    log: Vec<Request>,
    fails: Box<dyn Fn(&Request) -> bool>,
}

impl Machine {
    fn new(devices: i32) -> Self {
        Machine {
            devices,
            memory: BTreeMap::new(),
            next_address: 0x1000,
            log: Vec::new(),
            fails: Box::new(|_| false),
        }
    }

    fn failing(fails: impl Fn(&Request) -> bool + 'static) -> Self {
        Machine { fails: Box::new(fails), ..Machine::new(1) }
    }

    fn perform(&mut self, request: Request, payload: &[u8]) -> Reply {
        self.log.push(request);
        let fails = (self.fails)(&request);
        let broken = || Error::Api { api: "broken", code: 77 };
        let done = |fails: bool| Reply::Done(if fails { Err(broken()) } else { Ok(()) });
        match request {
            Request::DeviceCount => {
                Reply::Count(if fails { Err(broken()) } else { Ok(self.devices) })
            }
            Request::CreateHandle => Reply::Pointer(if fails { Err(broken()) } else { Ok(42) }),
            Request::Malloc { size } => Reply::Pointer(if fails {
                Err(broken())
            } else {
                let address = self.next_address;
                self.next_address += 0x1000;
                self.memory.insert(address, vec![0xaa; size]);
                Ok(address)
            }),
            Request::CopyOut { src, size, kind } => {
                assert_eq!(kind, HipMemcpyKind::DeviceToHost);
                Reply::Bytes(if fails {
                    Err(broken())
                } else {
                    Ok(self.memory[&src][..size].to_vec())
                })
            }
            Request::Free { ptr } => {
                assert!(self.memory.remove(&ptr).is_some());
                done(fails)
            }
            Request::CopyIn { dst, size, kind } => {
                assert_eq!(kind, HipMemcpyKind::HostToDevice);
                assert_eq!(payload.len(), size);
                if !fails {
                    self.memory.insert(dst, payload.to_vec());
                }
                done(fails)
            }
            Request::Gemm { call } => {
                if !fails {
                    self.multiply(call);
                }
                done(fails)
            }
            _ => done(fails),
        }
    }

    fn singles(&self, address: usize) -> Vec<f32> {
        self.memory[&address]
            .chunks(4)
            .map(|b| f32::from_le_bytes([b[0], b[1], b[2], b[3]]))
            .collect()
    }

    fn multiply(&mut self, call: GemmCall) {
        assert_eq!(call.handle, 42);
        let (alpha, beta) = match call.routine {
            GemmRoutine::SgemmStridedBatched { alpha, beta } => {
                (f32::from_bits(alpha), f32::from_bits(beta))
            }
            other => panic!("unexpected {other:?}"),
        };
        let (a, b) = (self.singles(call.a), self.singles(call.b));
        let c = call.config;
        let at = |op, ld: i32, i: i32, j: i32| match op {
            HipblasOperation::NoTranspose => (i + j * ld) as usize,
            HipblasOperation::Transpose => (j + i * ld) as usize,
        };
        let mut out = vec![0f32; self.memory[&call.c].len() / 4];
        for q in 0..c.batch_count as usize {
            for j in 0..c.n {
                for i in 0..c.m {
                    let mut sum = 0f32;
                    for p in 0..c.k {
                        sum += a[q * c.stride_a as usize + at(c.trans_a, c.lda, i, p)]
                            * b[q * c.stride_b as usize + at(c.trans_b, c.ldb, p, j)];
                    }
                    let place = q * c.stride_c as usize + (i + j * c.ldc) as usize;
                    out[place] = alpha * sum + beta * out[place];
                }
            }
        }
        self.memory
            .insert(call.c, out.iter().flat_map(|x| x.to_le_bytes()).collect());
    }

    fn drive<O: Operation>(&mut self, op: O) -> O::Output {
        self.drive_with(op, |_| Vec::new())
    }

    fn drive_with<O: Operation>(&mut self, op: O, payload: impl Fn(&O) -> Vec<u8>) -> O::Output {
        let mut op = op;
        loop {
            let request = op.request();
            let bytes = payload(&op);
            let reply = self.perform(request, &bytes);
            assert!(request.accepts(&reply));
            match op.advance(reply) {
                Step::Next(next) => op = next,
                Step::Finished(output) => return output,
            }
        }
    }

    fn upload(&mut self, upload: Upload) -> Result<RocmStorage, BackendError> {
        self.drive_with(upload, |u| u.bytes().clone())
    }

    fn open(&mut self, ordinal: usize) -> RocmDevice {
        self.drive(RocmDevice::new(ordinal)).unwrap()
    }

    fn put(&mut self, device: &RocmDevice, values: &[f32]) -> RocmStorage {
        let shadow = CpuStorage::F32(values.iter().map(|x| x.to_bits()).collect());
        self.upload(device.storage_from_cpu_storage_owned(shadow, ORDER)).unwrap()
    }
}

fn values(storage: &CpuStorage) -> Vec<f32> {
    match storage {
        CpuStorage::F32(bits) => bits.iter().map(|b| f32::from_bits(*b)).collect(),
        other => panic!("unexpected {other:?}"),
    }
}

fn layout(dims: &[usize], stride: &[usize]) -> Layout {
    Layout::new(dims.to_vec(), stride.to_vec(), 0)
}

fn broken<T>(result: Result<T, BackendError>) -> bool {
    matches!(
        result,
        Err(BackendError::Wrapped(Error::Api { api: "broken", code: 77 }))
    )
}

#[test]
fn rocm_tensor_roundtrip_and_matmul_smoke() {
    let mut machine = Machine::new(1);
    let rocm = machine.open(0);

    let lhs_rocm = machine.put(&rocm, &[1f32, 2., 3., 4., 5., 6.]);
    let rhs_rocm = machine.put(&rocm, &[7f32, 8., 9., 10., 11., 12.]);
    assert!(lhs_rocm.device().same_device(&rocm));
    assert!(rhs_rocm.device().same_device(&rocm));

    let roundtrip = lhs_rocm.to_cpu_storage().unwrap();
    assert_eq!(values(&roundtrip), vec![1f32, 2., 3., 4., 5., 6.]);

    let plan = lhs_rocm.matmul(
        &rhs_rocm,
        (1, 2, 2, 3),
        &layout(&[2, 3], &[3, 1]),
        &layout(&[3, 2], &[2, 1]),
        ORDER,
    );
    let work = match plan {
        MatmulPlan::Native(work) => work,
        MatmulPlan::Cpu => panic!("the device computes this"),
    };
    let got = machine.drive(work).unwrap();
    assert_eq!(
        values(&got.to_cpu_storage().unwrap()),
        vec![58.0, 64.0, 139.0, 154.0]
    );
    assert_eq!(got.storage_size_in_bytes(), 16);
    assert!(got.device().same_device(&rocm));
}

#[test]
fn opening_a_device_asks_in_order() {
    let mut machine = Machine::new(3);
    let device = machine.drive(RocmDevice::new_with_stream(2)).unwrap();
    assert_eq!(device.ordinal(), 2);
    assert_eq!(device.location(), DeviceLocation::Rocm { gpu_id: 2 });
    assert_eq!(
        machine.log,
        vec![
            Request::LoadRuntime,
            Request::Init { flags: 0 },
            Request::SetDevice { ordinal: 2 },
            Request::DeviceCount,
        ]
    );
    let other = machine.open(1);
    assert!(device.id() == machine.open(2).id());
    assert!(device.id() != other.id());
    assert!(device.clone().id() == device.id());
    assert!(device.clone() == device && device != other);
    assert!(device.same_device(&device.clone()));
    assert!(!device.same_device(&other));
}

#[test]
fn ordinals_without_a_device_are_refused() {
    let mut machine = Machine::new(2);
    match machine.drive(RocmDevice::new(2)) {
        Err(BackendError::Msg(text)) => assert_eq!(
            text,
            "ROCm device ordinal 2 out of range, available devices: 2"
        ),
        other => panic!("unexpected {other:?}"),
    }
}

#[test]
fn opening_stops_at_the_first_error() {
    let mut machine = Machine::failing(|r| matches!(r, Request::SetDevice { .. }));
    assert!(broken(machine.drive(RocmDevice::new(0))));
    assert_eq!(machine.log.len(), 3);
    let mut machine = Machine::failing(|r| matches!(r, Request::DeviceCount));
    assert!(broken(machine.drive(RocmDevice::new(0))));
    assert_eq!(machine.log.len(), 4);
}

#[test]
fn waiting_for_a_device() {
    let mut machine = Machine::new(1);
    let device = machine.open(0);
    machine.log.clear();
    assert!(machine.drive(device.synchronize()).is_ok());
    assert_eq!(
        machine.log,
        vec![
            Request::LoadRuntime,
            Request::Init { flags: 0 },
            Request::SetDevice { ordinal: 0 },
            Request::Synchronize,
        ]
    );
    machine.fails = Box::new(|r| matches!(r, Request::Synchronize));
    assert!(broken(machine.drive(device.synchronize())));
}

#[test]
fn probing_reports_a_device() {
    let mut machine = Machine::new(1);
    let outcome = machine.drive(HipRuntime::probe_device());
    assert_eq!(inferrs_backend_probe(Platform::Linux, &outcome), 0);
    assert_eq!(inferrs_backend_probe(Platform::WindowsX64, &outcome), 0);
    assert_eq!(inferrs_backend_probe(Platform::Other, &outcome), 1);
    assert_eq!(
        machine.log,
        vec![Request::LoadRuntime, Request::Init { flags: 0 }, Request::DeviceCount]
    );
    let outcome = Machine::new(0).drive(HipRuntime::probe_device());
    assert_eq!(inferrs_backend_probe(Platform::Linux, &outcome), 1);
    let outcome = Machine::new(-1).drive(HipRuntime::probe_device());
    assert_eq!(inferrs_backend_probe(Platform::Linux, &outcome), 1);
    let outcome = Machine::failing(|r| matches!(r, Request::Init { .. }))
        .drive(HipRuntime::probe_device());
    assert_eq!(inferrs_backend_probe(Platform::Linux, &outcome), 1);
}

#[test]
fn uploads_copy_the_bytes() {
    let mut machine = Machine::new(1);
    let device = machine.open(0);
    machine.log.clear();
    let storage = machine.put(&device, &[1.0, -2.0]);
    assert_eq!(machine.singles(storage.device_ptr()), vec![1.0, -2.0]);
    assert_eq!(storage.storage_size_in_bytes(), 8);
    assert_eq!(storage.dtype(), DType::F32);
    assert_eq!(
        storage.raw_buffer(),
        RawRocmBuffer { ptr: storage.device_ptr(), len_bytes: 8, ordinal: 0 }
    );
    assert_eq!(
        machine.log,
        vec![
            Request::LoadRuntime,
            Request::Init { flags: 0 },
            Request::SetDevice { ordinal: 0 },
            Request::Malloc { size: 8 },
            Request::CopyIn {
                dst: storage.device_ptr(),
                size: 8,
                kind: HipMemcpyKind::HostToDevice
            },
        ]
    );
}

#[test]
fn empty_uploads_need_no_memory() {
    let mut machine = Machine::new(1);
    let device = machine.open(0);
    let storage = machine.put(&device, &[]);
    assert_eq!((storage.device_ptr(), storage.storage_size_in_bytes()), (0, 0));
    assert!(machine.memory.is_empty());
    assert!(storage.raw_buffer().release().is_none());
}

#[test]
fn uploads_stop_at_the_first_error() {
    let mut machine = Machine::new(1);
    let device = machine.open(0);
    machine.fails = Box::new(|r| matches!(r, Request::Malloc { .. }));
    let shadow = CpuStorage::U8(vec![1]);
    assert!(broken(machine.upload(device.storage_from_cpu_storage(&shadow, ORDER))));
    assert!(matches!(machine.log.last(), Some(Request::Malloc { size: 1 })));
    machine.fails = Box::new(|r| matches!(r, Request::CopyIn { .. }));
    assert!(broken(machine.upload(device.storage_from_cpu_storage(&shadow, ORDER))));
    // The memory is not given back.
    assert!(matches!(machine.log.last(), Some(Request::CopyIn { .. })));
    assert_eq!(machine.memory.len(), 1);
}

#[test]
fn fetching_gives_back_what_was_uploaded() {
    let mut machine = Machine::new(1);
    let device = machine.open(0);
    for shadow in [
        CpuStorage::F32(vec![1.5f32.to_bits(), 0]),
        CpuStorage::F64(vec![1.5f64.to_bits(), u64::MAX]),
        CpuStorage::BF16(vec![0x3fc0, 1]),
        CpuStorage::F16(vec![0x3e00, 2]),
    ] {
        let storage =
            machine.upload(device.storage_from_cpu_storage(&shadow, ORDER)).unwrap();
        let download =
            download_shadow(storage.device_ptr(), shadow.dtype(), shadow.len(), ORDER).unwrap();
        let fetched = machine.drive(download).unwrap();
        assert_eq!(format!("{fetched:?}"), format!("{shadow:?}"));
    }
    match download_shadow(0, DType::I64, 1, ORDER) {
        Err(BackendError::Msg(text)) => {
            assert_eq!(text, "unsupported native ROCm matmul dtype I64")
        }
        other => panic!("unexpected {other:?}"),
    }
}

#[test]
fn transfers_and_clones() {
    let mut machine = Machine::new(2);
    let (here, there) = (machine.open(0), machine.open(1));
    let storage = machine.put(&here, &[3.0]);
    let moved = machine.upload(storage.transfer_to_device(&there, ORDER)).unwrap();
    assert!(moved.device().same_device(&there));
    assert_eq!(values(moved.shadow()), vec![3.0]);
    let fresh = machine.upload(storage.try_clone(&layout(&[1], &[1]), ORDER)).unwrap();
    assert!(fresh.device().same_device(&here));
    assert_ne!(fresh.device_ptr(), storage.device_ptr());
    assert_eq!(machine.singles(fresh.device_ptr()), vec![3.0]);
    let shared = storage.clone();
    assert_eq!(shared.device_ptr(), storage.device_ptr());
}

#[test]
fn host_computations_are_brought_to_the_device() {
    let mut machine = Machine::new(1);
    let device = machine.open(0);
    let (a, b) = (machine.put(&device, &[1.0, 2.0]), machine.put(&device, &[10.0, 20.0]));
    let bits = |v: Vec<f32>| CpuStorage::F32(v.iter().map(|x| x.to_bits()).collect());

    let doubled = a.unary_cpu(|x| Ok(bits(values(x).iter().map(|v| v * 2.0).collect())), ORDER);
    let doubled = machine.upload(doubled.unwrap()).unwrap();
    assert_eq!(machine.singles(doubled.device_ptr()), vec![2.0, 4.0]);

    let sum = a.binary_cpu(
        &b,
        |x, y| Ok(bits(values(x).iter().zip(values(y)).map(|(p, q)| p + q).collect())),
        ORDER,
    );
    let sum = machine.upload(sum.unwrap()).unwrap();
    assert_eq!(machine.singles(sum.device_ptr()), vec![11.0, 22.0]);

    let failed = a.unary_cpu(|_| Err(BackendError::Msg("no".to_string())), ORDER);
    assert!(matches!(failed, Err(BackendError::Msg(text)) if text == "no"));
}

#[test]
fn failed_changes_leave_the_storage_alone() {
    let mut machine = Machine::new(1);
    let device = machine.open(0);
    let mut storage = machine.put(&device, &[1.0, 2.0]);
    let set = |data: &mut CpuStorage| {
        *data = CpuStorage::F32(vec![9.0f32.to_bits()]);
        Ok(())
    };
    let refused = storage.mutate_cpu(
        |data: &mut CpuStorage| {
            *data = CpuStorage::U8(vec![]);
            Err(BackendError::Msg("no".to_string()))
        },
        ORDER,
    );
    assert!(refused.is_err());
    assert_eq!(values(storage.shadow()), vec![1.0, 2.0]);

    machine.fails = Box::new(|r| matches!(r, Request::CopyIn { .. }));
    let upload = storage.mutate_cpu(set, ORDER).unwrap();
    let outcome = machine.upload(upload);
    assert!(broken(storage.replace_by(outcome)));
    assert_eq!(values(storage.shadow()), vec![1.0, 2.0]);

    machine.fails = Box::new(|_| false);
    let upload = storage.mutate_cpu(set, ORDER).unwrap();
    let outcome = machine.upload(upload);
    assert!(storage.replace_by(outcome).is_ok());
    assert_eq!(values(storage.shadow()), vec![9.0]);
    assert_eq!(machine.singles(storage.device_ptr()), vec![9.0]);
}

#[test]
fn seeds_are_refused() {
    let device = Machine::new(1).open(0);
    assert!(matches!(
        device.set_seed(1),
        Err(BackendError::Msg(text))
            if text == "cannot seed the ROCm fallback backend with set_seed"
    ));
    assert!(matches!(
        device.get_current_seed(),
        Err(BackendError::Msg(text)) if text == "cannot get the ROCm fallback backend seed"
    ));
}

#[test]
fn products_that_fail_lose_no_memory() {
    let layouts = (layout(&[1, 1], &[1, 1]), layout(&[1, 1], &[1, 1]));
    let cases: Vec<(fn(&Request) -> bool, usize, bool)> = vec![
        (|r| matches!(r, Request::LoadRuntime), 1, false),
        (|r| matches!(r, Request::Init { .. }), 2, false),
        (|r| matches!(r, Request::SetDevice { .. }), 3, false),
        (|r| matches!(r, Request::LoadBlas), 4, false),
        (|r| matches!(r, Request::CreateHandle), 5, false),
        (|r| matches!(r, Request::Malloc { .. }), 6, false),
        (|r| matches!(r, Request::Gemm { .. }), 8, true),
        (|r| matches!(r, Request::CopyOut { .. }), 9, true),
        (|r| matches!(r, Request::Gemm { .. } | Request::Free { .. }), 8, true),
    ];
    for (fails, requests, frees) in cases {
        let mut machine = Machine::new(1);
        let device = machine.open(0);
        let (a, b) = (machine.put(&device, &[2.0]), machine.put(&device, &[3.0]));
        machine.log.clear();
        machine.fails = Box::new(fails);
        let work = match a.matmul(&b, (1, 1, 1, 1), &layouts.0, &layouts.1, ORDER) {
            MatmulPlan::Native(work) => work,
            MatmulPlan::Cpu => panic!("the device computes this"),
        };
        assert!(broken(machine.drive(work)));
        assert_eq!(machine.log.len(), requests);
        assert_eq!(matches!(machine.log.last(), Some(Request::Free { .. })), frees);
        assert_eq!(machine.memory.len(), 2);
    }
}

#[test]
fn products_go_to_the_host_where_the_device_cannot_compute_them() {
    let mut machine = Machine::new(1);
    let device = machine.open(0);
    let singles = machine.put(&device, &[1.0; 4]);
    let dense = || layout(&[2, 2], &[2, 1]);
    let gaps = layout(&[2, 2], &[4, 2]);
    let bmnk = (1, 2, 2, 2);
    let mut put = |shadow: CpuStorage| {
        machine.upload(device.storage_from_cpu_storage_owned(shadow, ORDER)).unwrap()
    };
    let bytes = put(CpuStorage::U8(vec![1; 4]));
    let doubles = put(CpuStorage::F64(vec![1.0f64.to_bits(); 4]));
    let halves = put(CpuStorage::F16(vec![0x3c00; 4]));
    let brains = put(CpuStorage::BF16(vec![0x3f80; 4]));
    let native = |a: &RocmStorage, b: &RocmStorage, rhs: &Layout| {
        matches!(a.matmul(b, bmnk, &dense(), rhs, ORDER), MatmulPlan::Native(_))
    };
    assert!(native(&singles, &singles, &dense()));
    assert!(native(&doubles, &doubles, &dense()));
    assert!(native(&halves, &halves, &dense()));
    assert!(native(&brains, &brains, &dense()));
    assert!(!native(&singles, &doubles, &dense()));
    assert!(!native(&bytes, &bytes, &dense()));
    assert!(!native(&singles, &singles, &gaps));
}

#[test]
fn products_have_to_fit_the_machine() {
    let mut machine = Machine::new(1);
    let device = machine.open(0);
    let a = machine.put(&device, &[1.0]);
    let one = || layout(&[1, 1], &[1, 1]);
    assert!(a.matmul_fits(&a, (1, 1, 1, 1), &one(), &one()));
    assert!(!a.matmul_fits(&a, (1, 1, 1, 1), &layout(&[1], &[1]), &one()));
    assert!(!a.matmul_fits(&a, (usize::MAX, 2, 0, 1), &one(), &one()));
    assert!(!a.matmul_fits(&a, (1, usize::MAX, 2, 1), &one(), &one()));
    // Four bytes an element are too many.
    let long = || layout(&[usize::MAX / 2, 1], &[1, 1]);
    assert!(!a.matmul_fits(&a, (1, usize::MAX / 2, 1, 1), &long(), &one()));
    let bytes =
        machine.upload(device.storage_from_cpu_storage_owned(CpuStorage::U8(vec![1]), ORDER));
    let bytes = bytes.unwrap();
    assert!(bytes.matmul_fits(&bytes, (1, usize::MAX / 2, 1, 1), &long(), &one()));
}

#[test]
fn releasing_memory_goes_on_after_errors() {
    let mut machine = Machine::new(1);
    let device = machine.open(0);
    let storage = machine.put(&device, &[1.0]);
    machine.log.clear();
    machine.fails = Box::new(|r| !matches!(r, Request::LoadRuntime));
    machine.drive(storage.raw_buffer().release().unwrap());
    assert_eq!(
        machine.log,
        vec![
            Request::LoadRuntime,
            Request::Init { flags: 0 },
            Request::SetDevice { ordinal: 0 },
            Request::Free { ptr: storage.device_ptr() },
        ]
    );
    assert!(machine.memory.is_empty());
}

#[test]
fn releasing_memory_needs_the_runtime() {
    let mut machine = Machine::failing(|r| matches!(r, Request::LoadRuntime));
    let buffer = RawRocmBuffer { ptr: 8, len_bytes: 4, ordinal: 0 };
    machine.drive(buffer.release().unwrap());
    assert_eq!(machine.log, vec![Request::LoadRuntime]);
}

#[test]
fn replies_have_to_fit_their_requests() {
    let copy = Request::CopyOut { src: 0, size: 2, kind: HipMemcpyKind::DeviceToHost };
    assert!(copy.accepts(&Reply::Bytes(Ok(vec![1, 2]))));
    assert!(!copy.accepts(&Reply::Bytes(Ok(vec![1]))));
    assert!(copy.accepts(&Reply::Bytes(Err(Error::UnsupportedPlatform))));
    assert!(!copy.accepts(&Reply::Done(Ok(()))));
    assert!(Request::LoadRuntime.accepts(&Reply::Done(Ok(()))));
    assert!(!Request::DeviceCount.accepts(&Reply::Done(Ok(()))));
    assert!(Request::Malloc { size: 1 }.accepts(&Reply::Pointer(Ok(0))));
}
