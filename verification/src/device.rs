//! Devices: opening one, and waiting for one.

use crate::error::{map_hip_err, BackendError};
use crate::operation::{failure_of, Operation, Reply, Request, Step};
use crate::text::{decimal, unsigned_text};
use vstd::prelude::*;

verus! {

/// What tells one device from another.
#[derive(Clone, Copy, Debug, PartialEq, Eq, Hash, Structural)]
pub struct DeviceId(usize);

impl View for DeviceId {
    type V = usize;

    closed spec fn view(&self) -> usize {
        self.0
    }
}

/// Where a device is.
#[derive(Clone, Copy, Debug, PartialEq, Eq, Structural)]
pub enum DeviceLocation {
    Rocm { gpu_id: usize },
}

/// A ROCm device, by its number on this machine.
#[derive(Clone, Copy, Debug, PartialEq, Eq, Structural)]
pub struct RocmDevice {
    ordinal: usize,
}

impl View for RocmDevice {
    type V = usize;

    closed spec fn view(&self) -> usize {
        self.ordinal
    }
}

impl RocmDevice {
    /// The work of opening the device number `ordinal`.
    pub fn new(ordinal: usize) -> (opening: DeviceOpening)
        ensures
            opening == (DeviceOpening { ordinal, stage: OpeningStage::Load }),
    {
        DeviceOpening { ordinal, stage: OpeningStage::Load }
    }

    /// The work of opening the device number `ordinal`, to be used with streams.
    pub fn new_with_stream(ordinal: usize) -> (opening: DeviceOpening)
        ensures
            opening == (DeviceOpening { ordinal, stage: OpeningStage::Load }),
    {
        Self::new(ordinal)
    }

    /// The number of the device.
    pub fn ordinal(&self) -> (ordinal: usize)
        ensures
            ordinal == self@,
    {
        self.ordinal
    }

    /// What tells the device from others.
    pub fn id(&self) -> (id: DeviceId)
        ensures
            id@ == self@,
    {
        DeviceId(self.ordinal)
    }

    /// Where the device is.
    pub fn location(&self) -> (location: DeviceLocation)
        ensures
            location == (DeviceLocation::Rocm { gpu_id: self@ }),
    {
        DeviceLocation::Rocm { gpu_id: self.ordinal }
    }

    /// Whether two devices are the same.
    pub fn same_device(&self, rhs: &Self) -> (same: bool)
        ensures
            same == (self@ == rhs@),
    {
        self.ordinal == rhs.ordinal
    }

    /// Random numbers are drawn on the host, so there is no seed to set here.
    pub fn set_seed(&self, _seed: u64) -> (result: Result<(), BackendError>)
        ensures
            result matches Err(BackendError::Msg(text)) && text@
                == "cannot seed the ROCm fallback backend with set_seed"@,
    {
        Err(
            BackendError::Msg("cannot seed the ROCm fallback backend with set_seed".to_owned()),
        )
    }

    /// Random numbers are drawn on the host, so there is no seed to be had here.
    pub fn get_current_seed(&self) -> (result: Result<u64, BackendError>)
        ensures
            result matches Err(BackendError::Msg(text)) && text@
                == "cannot get the ROCm fallback backend seed"@,
    {
        Err(BackendError::Msg("cannot get the ROCm fallback backend seed".to_owned()))
    }

    /// The work of waiting until the device is idle.
    pub fn synchronize(&self) -> (waiting: Synchronizing)
        ensures
            waiting == (Synchronizing { ordinal: self@, stage: SynchronizingStage::Load }),
    {
        Synchronizing { ordinal: self.ordinal, stage: SynchronizingStage::Load }
    }
}

/// An id is its number and nothing else.
pub proof fn law_ids_are_numbers(a: DeviceId, b: DeviceId)
    ensures
        a == b <==> a@ == b@,
{
}

/// The number of a device says which one it is: two handles are equal, and have
/// equal ids, exactly where they are of the same device.
pub proof fn law_ids_tell_devices_apart(
    a: RocmDevice,
    b: RocmDevice,
    a_id: DeviceId,
    b_id: DeviceId,
)
    requires
        a_id@ == a@,
        b_id@ == b@,
    ensures
        a_id == b_id <==> a@ == b@,
        a == b <==> a@ == b@,
{
}

/// How far the opening of a device is.
#[derive(Clone, Copy, Debug, PartialEq, Eq, Structural)]
pub enum OpeningStage {
    Load,
    Init,
    Select,
    Count,
}

/// The work of opening a device.
#[derive(Clone, Copy, Debug, PartialEq, Eq, Structural)]
pub struct DeviceOpening {
    pub ordinal: usize,
    pub stage: OpeningStage,
}

/// What is said of an ordinal that no device has.
pub open spec fn out_of_range_text(ordinal: usize, count: usize) -> Seq<char> {
    "ROCm device ordinal "@ + decimal(ordinal as nat) + " out of range, available devices: "@
        + decimal(count as nat)
}

impl Operation for DeviceOpening {
    type Output = Result<RocmDevice, BackendError>;

    open spec fn wf(&self) -> bool {
        true
    }

    open spec fn pending(&self) -> Request {
        match self.stage {
            OpeningStage::Load => Request::LoadRuntime,
            OpeningStage::Init => Request::Init { flags: 0 },
            OpeningStage::Select => Request::SetDevice { ordinal: self.ordinal as i32 },
            OpeningStage::Count => Request::DeviceCount,
        }
    }

    open spec fn next(self, reply: Reply) -> Option<Self> {
        if reply.failure() is Some {
            None
        } else {
            match self.stage {
                OpeningStage::Load => Some(DeviceOpening { stage: OpeningStage::Init, ..self }),
                OpeningStage::Init => Some(DeviceOpening { stage: OpeningStage::Select, ..self }),
                OpeningStage::Select => Some(DeviceOpening { stage: OpeningStage::Count, ..self }),
                OpeningStage::Count => None,
            }
        }
    }

    /// Any error is passed on. The device is there if its number is below the
    /// number of devices.
    open spec fn ends_with(self, reply: Reply, output: Result<RocmDevice, BackendError>) -> bool {
        match reply.failure() {
            Some(e) => output == Err::<RocmDevice, BackendError>(BackendError::Wrapped(e)),
            None => if self.ordinal < reply.count() as usize {
                output matches Ok(device) && device@ == self.ordinal
            } else {
                output matches Err(BackendError::Msg(text)) && text@ == out_of_range_text(
                    self.ordinal,
                    reply.count() as usize,
                )
            },
        }
    }

    open spec fn requests_left(&self) -> nat {
        match self.stage {
            OpeningStage::Load => 4,
            OpeningStage::Init => 3,
            OpeningStage::Select => 2,
            OpeningStage::Count => 1,
        }
    }

    proof fn lemma_goes_on(self, reply: Reply) {
    }

    fn request(&self) -> (request: Request) {
        match self.stage {
            OpeningStage::Load => Request::LoadRuntime,
            OpeningStage::Init => Request::Init { flags: 0 },
            OpeningStage::Select => Request::SetDevice { ordinal: self.ordinal as i32 },
            OpeningStage::Count => Request::DeviceCount,
        }
    }

    fn advance(self, reply: Reply) -> (step: Step<Self, Self::Output>) {
        let stage = match self.stage {
            OpeningStage::Load => OpeningStage::Init,
            OpeningStage::Init => OpeningStage::Select,
            OpeningStage::Select => OpeningStage::Count,
            OpeningStage::Count => {
                return match reply {
                    Reply::Count(Ok(count)) => {
                        let count: usize = count as usize;
                        if self.ordinal >= count {
                            let mut text = "ROCm device ordinal ".to_owned();
                            text.append(unsigned_text(self.ordinal as u64).as_str());
                            text.append(" out of range, available devices: ");
                            text.append(unsigned_text(count as u64).as_str());
                            Step::Finished(Err(BackendError::Msg(text)))
                        } else {
                            Step::Finished(Ok(RocmDevice { ordinal: self.ordinal }))
                        }
                    },
                    Reply::Count(Err(e)) => Step::Finished(Err(map_hip_err(e))),
                    _ => Step::Next(self),
                };
            },
        };
        match failure_of(reply) {
            Some(e) => Step::Finished(Err(map_hip_err(e))),
            None => Step::Next(DeviceOpening { ordinal: self.ordinal, stage }),
        }
    }
}

/// How far the waiting for a device is.
#[derive(Clone, Copy, Debug, PartialEq, Eq, Structural)]
pub enum SynchronizingStage {
    Load,
    Init,
    Select,
    Wait,
}

/// The work of waiting until a device is idle.
#[derive(Clone, Copy, Debug, PartialEq, Eq, Structural)]
pub struct Synchronizing {
    pub ordinal: usize,
    pub stage: SynchronizingStage,
}

impl Operation for Synchronizing {
    type Output = Result<(), BackendError>;

    open spec fn wf(&self) -> bool {
        true
    }

    open spec fn pending(&self) -> Request {
        match self.stage {
            SynchronizingStage::Load => Request::LoadRuntime,
            SynchronizingStage::Init => Request::Init { flags: 0 },
            SynchronizingStage::Select => Request::SetDevice { ordinal: self.ordinal as i32 },
            SynchronizingStage::Wait => Request::Synchronize,
        }
    }

    open spec fn next(self, reply: Reply) -> Option<Self> {
        if reply.failure() is Some {
            None
        } else {
            match self.stage {
                SynchronizingStage::Load => Some(
                    Synchronizing { stage: SynchronizingStage::Init, ..self },
                ),
                SynchronizingStage::Init => Some(
                    Synchronizing { stage: SynchronizingStage::Select, ..self },
                ),
                SynchronizingStage::Select => Some(
                    Synchronizing { stage: SynchronizingStage::Wait, ..self },
                ),
                SynchronizingStage::Wait => None,
            }
        }
    }

    /// Any error is passed on.
    open spec fn ends_with(self, reply: Reply, output: Result<(), BackendError>) -> bool {
        match reply.failure() {
            Some(e) => output == Err::<(), BackendError>(BackendError::Wrapped(e)),
            None => output == Ok::<(), BackendError>(()),
        }
    }

    open spec fn requests_left(&self) -> nat {
        match self.stage {
            SynchronizingStage::Load => 4,
            SynchronizingStage::Init => 3,
            SynchronizingStage::Select => 2,
            SynchronizingStage::Wait => 1,
        }
    }

    proof fn lemma_goes_on(self, reply: Reply) {
    }

    fn request(&self) -> (request: Request) {
        match self.stage {
            SynchronizingStage::Load => Request::LoadRuntime,
            SynchronizingStage::Init => Request::Init { flags: 0 },
            SynchronizingStage::Select => Request::SetDevice { ordinal: self.ordinal as i32 },
            SynchronizingStage::Wait => Request::Synchronize,
        }
    }

    fn advance(self, reply: Reply) -> (step: Step<Self, Self::Output>) {
        if let Some(e) = failure_of(reply) {
            return Step::Finished(Err(map_hip_err(e)));
        }
        let stage = match self.stage {
            SynchronizingStage::Load => SynchronizingStage::Init,
            SynchronizingStage::Init => SynchronizingStage::Select,
            SynchronizingStage::Select => SynchronizingStage::Wait,
            SynchronizingStage::Wait => {
                return Step::Finished(Ok(()));
            },
        };
        Step::Next(Synchronizing { ordinal: self.ordinal, stage })
    }
}

} // verus!
