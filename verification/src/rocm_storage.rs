//! Tensor data on a device, with a copy of it in host memory.

use crate::device::RocmDevice;
use crate::error::{map_hip_err, BackendError};
use crate::hip::HipMemcpyKind;
use crate::layout::Layout;
use crate::operation::{failure_of, Operation, Reply, Request, Step};
use crate::storage::{
    cpu_storage_as_bytes, law_byte_len, ByteOrder, CpuStorage, DType, StorageModel,
};
use vstd::prelude::*;

verus! {

/// A piece of device memory: its address, its size, and the device that it is on.
#[derive(Clone, Copy, Debug, PartialEq, Eq, Structural)]
pub struct RawRocmBuffer {
    pub ptr: usize,
    pub len_bytes: usize,
    pub ordinal: usize,
}

/// Tensor data on a device: the buffer there, and the shadow, which is the same
/// data in host memory.
#[derive(Debug)]
pub struct RocmStorage {
    buffer: RawRocmBuffer,
    shadow: CpuStorage,
    device: RocmDevice,
}

impl RocmStorage {
    /// The buffer on the device.
    pub closed spec fn buffer(&self) -> RawRocmBuffer {
        self.buffer
    }

    /// The data.
    pub closed spec fn contents(&self) -> StorageModel {
        self.shadow@
    }

    /// The number of the device.
    pub closed spec fn place(&self) -> usize {
        self.device@
    }

    /// The buffer is on the device, and as large as the data.
    #[verifier::type_invariant]
    spec fn inv(self) -> bool {
        &&& self.buffer.ordinal == self.device@
        &&& self.buffer.len_bytes == self.shadow@.byte_len()
    }

    /// The storage whose data is `shadow`, in the memory at `ptr` on `device`.
    pub(crate) fn from_raw_parts(
        device: RocmDevice,
        ptr: usize,
        len_bytes: usize,
        shadow: CpuStorage,
    ) -> (storage: Self)
        requires
            len_bytes == shadow@.byte_len(),
        ensures
            storage.buffer() == (RawRocmBuffer { ptr, len_bytes, ordinal: device@ }),
            storage.contents() == shadow@,
            storage.place() == device@,
    {
        RocmStorage {
            buffer: RawRocmBuffer { ptr, len_bytes, ordinal: device.ordinal() },
            shadow,
            device,
        }
    }

    /// The address of the data on the device.
    pub fn device_ptr(&self) -> (ptr: usize)
        ensures
            ptr == self.buffer().ptr,
    {
        self.buffer.ptr
    }

    /// The size of the data on the device.
    pub fn storage_size_in_bytes(&self) -> (size: usize)
        ensures
            size == self.buffer().len_bytes,
            size == self.contents().byte_len(),
            self.buffer().ordinal == self.place(),
    {
        proof {
            use_type_invariant(self);
        }
        self.buffer.len_bytes
    }

    /// The memory on the device.
    pub fn raw_buffer(&self) -> (buffer: RawRocmBuffer)
        ensures
            buffer == self.buffer(),
    {
        self.buffer
    }

    /// The data in host memory.
    pub fn shadow(&self) -> (shadow: &CpuStorage)
        ensures
            shadow@ == self.contents(),
    {
        &self.shadow
    }

    /// The type of the elements.
    pub fn dtype(&self) -> (dtype: DType)
        ensures
            dtype == self.contents().dtype,
    {
        self.shadow.dtype()
    }

    /// The device.
    pub fn device(&self) -> (device: &RocmDevice)
        ensures
            device@ == self.place(),
    {
        &self.device
    }

    /// The data in host memory.
    pub fn to_cpu_storage(&self) -> (result: Result<CpuStorage, BackendError>)
        ensures
            result matches Ok(storage) && storage@ == self.contents(),
    {
        Ok(self.shadow.clone())
    }
}

impl Clone for RocmStorage {
    /// The same data in the same device memory.
    fn clone(&self) -> (copy: Self)
        ensures
            copy.buffer() == self.buffer(),
            copy.contents() == self.contents(),
            copy.place() == self.place(),
    {
        proof {
            use_type_invariant(self);
        }
        RocmStorage { buffer: self.buffer, shadow: self.shadow.clone(), device: self.device }
    }
}

impl RocmStorage {
    /// The work of bringing the data to the device `dst`.
    pub fn transfer_to_device(&self, dst: &RocmDevice, order: ByteOrder) -> (upload: Upload)
        ensures
            upload.begins(dst@, self.contents(), order),
    {
        dst.storage_from_cpu_storage(&self.shadow, order)
    }

    /// The work of bringing the data to its device once more.
    pub fn try_clone(&self, _layout: &Layout, order: ByteOrder) -> (upload: Upload)
        ensures
            upload.begins(self.place(), self.contents(), order),
    {
        self.device.storage_from_cpu_storage(&self.shadow, order)
    }

    /// Computes `f` of the data on the host. What it gives is to be brought to
    /// the device that the data is on.
    pub fn unary_cpu<F>(&self, f: F, order: ByteOrder) -> (result: Result<Upload, BackendError>)
        where F: FnOnce(&CpuStorage) -> Result<CpuStorage, BackendError>,
        requires
            forall|data: CpuStorage| data@ == self.contents() ==> f.requires((&data,)),
        ensures
            exists|data: CpuStorage, computed: Result<CpuStorage, BackendError>|
                {
                    &&& data@ == self.contents()
                    &&& #[trigger] f.ensures((&data,), computed)
                    &&& uploads(result, self.place(), computed, order)
                },
    {
        let computed = f(&self.shadow);
        assert(f.ensures((&self.shadow,), computed));
        match computed {
            Ok(shadow) => Ok(self.device.storage_from_cpu_storage_owned(shadow, order)),
            Err(e) => Err(e),
        }
    }

    /// Computes `f` of the data of both operands on the host. What it gives is
    /// to be brought to the device that the left one is on.
    pub fn binary_cpu<F>(&self, rhs: &Self, f: F, order: ByteOrder) -> (result: Result<
        Upload,
        BackendError,
    >)
        where F: FnOnce(&CpuStorage, &CpuStorage) -> Result<CpuStorage, BackendError>,
        requires
            forall|left: CpuStorage, right: CpuStorage|
                left@ == self.contents() && right@ == rhs.contents() ==> f.requires(
                    (&left, &right),
                ),
        ensures
            exists|
                left: CpuStorage,
                right: CpuStorage,
                computed: Result<CpuStorage, BackendError>,
            |
                {
                    &&& left@ == self.contents()
                    &&& right@ == rhs.contents()
                    &&& #[trigger] f.ensures((&left, &right), computed)
                    &&& uploads(result, self.place(), computed, order)
                },
    {
        let computed = f(&self.shadow, &rhs.shadow);
        assert(f.ensures((&self.shadow, &rhs.shadow), computed));
        match computed {
            Ok(shadow) => Ok(self.device.storage_from_cpu_storage_owned(shadow, order)),
            Err(e) => Err(e),
        }
    }

    /// Changes a copy of the data on the host by `f`. The changed copy is to be
    /// brought to the device that the data is on.
    pub fn mutate_cpu<F>(&self, f: F, order: ByteOrder) -> (result: Result<Upload, BackendError>)
        where F: FnOnce(&mut CpuStorage) -> Result<(), BackendError>,
        requires
            forall|data: &mut CpuStorage| (*data)@ == self.contents() ==> f.requires((data,)),
        ensures
            exists|data: &mut CpuStorage, done: Result<(), BackendError>|
                {
                    &&& (*data)@ == self.contents()
                    &&& #[trigger] f.ensures((data,), done)
                    &&& match done {
                        Ok(_) => result matches Ok(upload) && upload.begins(
                            self.place(),
                            (*final(data))@,
                            order,
                        ),
                        Err(e) => result == Err::<Upload, BackendError>(e),
                    }
                },
    {
        let mut shadow = self.shadow.clone();
        let done = f(&mut shadow);
        match done {
            Ok(()) => Ok(self.device.storage_from_cpu_storage_owned(shadow, order)),
            Err(e) => Err(e),
        }
    }

    /// Puts what came of an upload in the place of this storage. Where the
    /// upload failed this storage stays as it is.
    pub fn replace_by(&mut self, uploaded: Result<RocmStorage, BackendError>) -> (result: Result<
        (),
        BackendError,
    >)
        ensures
            match uploaded {
                Ok(storage) => *final(self) == storage && result == Ok::<(), BackendError>(()),
                Err(e) => *final(self) == *old(self) && result == Err::<(), BackendError>(e),
            },
    {
        match uploaded {
            Ok(storage) => {
                *self = storage;
                Ok(())
            },
            Err(e) => Err(e),
        }
    }
}

/// `result` is the upload of what was computed, or the error that it failed with.
pub open spec fn uploads(
    result: Result<Upload, BackendError>,
    place: usize,
    computed: Result<CpuStorage, BackendError>,
    order: ByteOrder,
) -> bool {
    match computed {
        Ok(data) => result matches Ok(upload) && upload.begins(place, data@, order),
        Err(e) => result == Err::<Upload, BackendError>(e),
    }
}

impl RocmDevice {
    /// The work of bringing `s` to the device.
    pub fn storage_from_cpu_storage_owned(&self, s: CpuStorage, order: ByteOrder) -> (upload:
        Upload)
        ensures
            upload.begins(self@, s@, order),
    {
        upload_shadow(self, s, order)
    }

    /// The work of bringing a copy of `s` to the device.
    pub fn storage_from_cpu_storage(&self, s: &CpuStorage, order: ByteOrder) -> (upload: Upload)
        ensures
            upload.begins(self@, s@, order),
    {
        self.storage_from_cpu_storage_owned(s.clone(), order)
    }
}

/// How far an upload is.
#[derive(Clone, Copy, Debug, PartialEq, Eq, Structural)]
pub enum UploadStage {
    Load,
    Init,
    Select,
    Allocate,
    Copy { ptr: usize },
}

/// The work of bringing data to a device.
#[derive(Debug)]
pub struct Upload {
    device: RocmDevice,
    shadow: CpuStorage,
    order: ByteOrder,
    bytes: Vec<u8>,
    stage: UploadStage,
}

/// The work of bringing `shadow` to `device`, in the byte order of host and device.
pub fn upload_shadow(device: &RocmDevice, shadow: CpuStorage, order: ByteOrder) -> (upload: Upload)
    ensures
        upload.begins(device@, shadow@, order),
{
    let bytes = cpu_storage_as_bytes(&shadow, order);
    Upload { device: *device, shadow, order, bytes, stage: UploadStage::Load }
}

impl Upload {
    /// The number of the device.
    pub closed spec fn place(&self) -> usize {
        self.device@
    }

    /// The data.
    pub closed spec fn contents(&self) -> StorageModel {
        self.shadow@
    }

    /// The byte order in which the data travels.
    pub closed spec fn order(&self) -> ByteOrder {
        self.order
    }

    /// How far the upload is.
    pub closed spec fn stage(&self) -> UploadStage {
        self.stage
    }

    /// The bytes that travel.
    pub open spec fn payload(&self) -> Seq<u8> {
        self.contents().bytes(self.order())
    }

    /// The upload of `contents` to the device number `place`, at its beginning.
    pub open spec fn begins(&self, place: usize, contents: StorageModel, order: ByteOrder) -> bool {
        &&& self.wf()
        &&& self.place() == place
        &&& self.contents() == contents
        &&& self.order() == order
        &&& self.stage() == UploadStage::Load
    }

    /// The same upload at another stage.
    pub closed spec fn at(self, stage: UploadStage) -> Self {
        Upload { stage, ..self }
    }

    /// Being at another stage changes nothing else.
    pub broadcast proof fn lemma_at(self, stage: UploadStage)
        ensures
            (#[trigger] self.at(stage)).stage() == stage,
            self.at(stage).place() == self.place(),
            self.at(stage).contents() == self.contents(),
            self.at(stage).order() == self.order(),
            self.at(stage).wf() == self.wf(),
    {
    }

    /// The data is no larger than a machine can hold.
    pub proof fn lemma_fits(self)
        requires
            self.wf(),
        ensures
            self.contents().byte_len() <= usize::MAX,
    {
        law_byte_len(self.shadow@, self.order);
        assert(self.bytes.len() == self.bytes@.len());
    }

    /// The bytes that travel.
    pub fn bytes(&self) -> (bytes: &Vec<u8>)
        requires
            self.wf(),
        ensures
            bytes@ == self.payload(),
    {
        &self.bytes
    }
}

impl Operation for Upload {
    type Output = Result<RocmStorage, BackendError>;

    closed spec fn wf(&self) -> bool {
        self.bytes@ == self.shadow@.bytes(self.order)
    }

    open spec fn pending(&self) -> Request {
        match self.stage() {
            UploadStage::Load => Request::LoadRuntime,
            UploadStage::Init => Request::Init { flags: 0 },
            UploadStage::Select => Request::SetDevice { ordinal: self.place() as i32 },
            UploadStage::Allocate => Request::Malloc { size: self.contents().byte_len() as usize },
            UploadStage::Copy { ptr } => Request::CopyIn {
                dst: ptr,
                size: self.contents().byte_len() as usize,
                kind: HipMemcpyKind::HostToDevice,
            },
        }
    }

    /// Where there is nothing to bring over, no memory is asked for.
    open spec fn next(self, reply: Reply) -> Option<Self> {
        if reply.failure() is Some {
            None
        } else {
            match self.stage() {
                UploadStage::Load => Some(self.at(UploadStage::Init)),
                UploadStage::Init => Some(self.at(UploadStage::Select)),
                UploadStage::Select => if self.contents().byte_len() == 0 {
                    None
                } else {
                    Some(self.at(UploadStage::Allocate))
                },
                UploadStage::Allocate => Some(self.at(UploadStage::Copy { ptr: reply.pointer() })),
                UploadStage::Copy { .. } => None,
            }
        }
    }

    /// Any error is passed on. The storage holds the data, in the memory that it
    /// was copied to, or at address zero where there is none.
    open spec fn ends_with(self, reply: Reply, output: Result<RocmStorage, BackendError>) -> bool {
        match reply.failure() {
            Some(e) => output == Err::<RocmStorage, BackendError>(BackendError::Wrapped(e)),
            None => {
                &&& output matches Ok(storage)
                &&& storage.contents() == self.contents()
                &&& storage.place() == self.place()
                &&& storage.buffer() == (RawRocmBuffer {
                    ptr: match self.stage() {
                        UploadStage::Copy { ptr } => ptr,
                        _ => 0,
                    },
                    len_bytes: self.contents().byte_len() as usize,
                    ordinal: self.place(),
                })
            },
        }
    }

    open spec fn requests_left(&self) -> nat {
        match self.stage() {
            UploadStage::Load => 5,
            UploadStage::Init => 4,
            UploadStage::Select => 3,
            UploadStage::Allocate => 2,
            UploadStage::Copy { .. } => 1,
        }
    }

    proof fn lemma_goes_on(self, reply: Reply) {
    }

    fn request(&self) -> (request: Request) {
        proof {
            law_byte_len(self.shadow@, self.order);
        }
        match self.stage {
            UploadStage::Load => Request::LoadRuntime,
            UploadStage::Init => Request::Init { flags: 0 },
            UploadStage::Select => Request::SetDevice { ordinal: self.device.ordinal() as i32 },
            UploadStage::Allocate => Request::Malloc { size: self.bytes.len() },
            UploadStage::Copy { ptr } => Request::CopyIn {
                dst: ptr,
                size: self.bytes.len(),
                kind: HipMemcpyKind::HostToDevice,
            },
        }
    }

    fn advance(self, reply: Reply) -> (step: Step<Self, Self::Output>) {
        proof {
            law_byte_len(self.shadow@, self.order);
        }
        let len_bytes: usize = self.bytes.len();
        let Upload { device, shadow, order, bytes, stage } = self;
        let stage = match stage {
            UploadStage::Load => UploadStage::Init,
            UploadStage::Init => UploadStage::Select,
            UploadStage::Select => UploadStage::Allocate,
            UploadStage::Allocate => {
                return match reply {
                    Reply::Pointer(Ok(ptr)) => Step::Next(
                        Upload { device, shadow, order, bytes, stage: UploadStage::Copy { ptr } },
                    ),
                    Reply::Pointer(Err(e)) => Step::Finished(Err(map_hip_err(e))),
                    _ => Step::Next(Upload { device, shadow, order, bytes, stage }),
                };
            },
            UploadStage::Copy { ptr } => {
                return match failure_of(reply) {
                    Some(e) => Step::Finished(Err(map_hip_err(e))),
                    None => Step::Finished(
                        Ok(RocmStorage::from_raw_parts(device, ptr, len_bytes, shadow)),
                    ),
                };
            },
        };
        match failure_of(reply) {
            Some(e) => Step::Finished(Err(map_hip_err(e))),
            None => if let UploadStage::Allocate = stage {
                if len_bytes == 0 {
                    Step::Finished(Ok(RocmStorage::from_raw_parts(device, 0, len_bytes, shadow)))
                } else {
                    Step::Next(Upload { device, shadow, order, bytes, stage })
                }
            } else {
                Step::Next(Upload { device, shadow, order, bytes, stage })
            },
        }
    }
}

/// How far the release of device memory is.
#[derive(Clone, Copy, Debug, PartialEq, Eq, Structural)]
pub enum ReleaseStage {
    Load,
    Init,
    Select,
    Free,
}

/// The work of releasing device memory.
#[derive(Clone, Copy, Debug, PartialEq, Eq, Structural)]
pub struct Release {
    pub buffer: RawRocmBuffer,
    pub stage: ReleaseStage,
}

impl RawRocmBuffer {
    /// The work of releasing the memory, which there is none at address zero.
    pub fn release(&self) -> (work: Option<Release>)
        ensures
            work == if self.ptr == 0 {
                None::<Release>
            } else {
                Some(Release { buffer: *self, stage: ReleaseStage::Load })
            },
    {
        if self.ptr == 0 {
            None
        } else {
            Some(Release { buffer: *self, stage: ReleaseStage::Load })
        }
    }
}

impl Operation for Release {
    type Output = ();

    open spec fn wf(&self) -> bool {
        true
    }

    open spec fn pending(&self) -> Request {
        match self.stage {
            ReleaseStage::Load => Request::LoadRuntime,
            ReleaseStage::Init => Request::Init { flags: 0 },
            ReleaseStage::Select => Request::SetDevice { ordinal: self.buffer.ordinal as i32 },
            ReleaseStage::Free => Request::Free { ptr: self.buffer.ptr },
        }
    }

    /// Without a runtime nothing can be released. No other error holds it up.
    open spec fn next(self, reply: Reply) -> Option<Self> {
        match self.stage {
            ReleaseStage::Load => if reply.failure() is Some {
                None
            } else {
                Some(Release { stage: ReleaseStage::Init, ..self })
            },
            ReleaseStage::Init => Some(Release { stage: ReleaseStage::Select, ..self }),
            ReleaseStage::Select => Some(Release { stage: ReleaseStage::Free, ..self }),
            ReleaseStage::Free => None,
        }
    }

    open spec fn ends_with(self, reply: Reply, output: ()) -> bool {
        true
    }

    open spec fn requests_left(&self) -> nat {
        match self.stage {
            ReleaseStage::Load => 4,
            ReleaseStage::Init => 3,
            ReleaseStage::Select => 2,
            ReleaseStage::Free => 1,
        }
    }

    proof fn lemma_goes_on(self, reply: Reply) {
    }

    fn request(&self) -> (request: Request) {
        match self.stage {
            ReleaseStage::Load => Request::LoadRuntime,
            ReleaseStage::Init => Request::Init { flags: 0 },
            ReleaseStage::Select => Request::SetDevice { ordinal: self.buffer.ordinal as i32 },
            ReleaseStage::Free => Request::Free { ptr: self.buffer.ptr },
        }
    }

    fn advance(self, reply: Reply) -> (step: Step<Self, Self::Output>) {
        let stage = match self.stage {
            ReleaseStage::Load => if failure_of(reply).is_some() {
                return Step::Finished(());
            } else {
                ReleaseStage::Init
            },
            ReleaseStage::Init => ReleaseStage::Select,
            ReleaseStage::Select => ReleaseStage::Free,
            ReleaseStage::Free => {
                return Step::Finished(());
            },
        };
        Step::Next(Release { buffer: self.buffer, stage })
    }
}

} // verus!
