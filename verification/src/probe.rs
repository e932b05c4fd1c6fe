//! Whether there is a device at all.

use crate::error::Error;
use crate::hip::HipRuntime;
use crate::library::Platform;
use crate::operation::{failure_of, Operation, Reply, Request, Step};
use vstd::prelude::*;

verus! {

/// How far the probing is.
#[derive(Clone, Copy, Debug, PartialEq, Eq, Structural)]
pub enum DeviceProbe {
    Load,
    Init,
    Count,
}

impl HipRuntime {
    /// The work of counting the devices.
    pub fn probe_device() -> (probe: DeviceProbe)
        ensures
            probe == DeviceProbe::Load,
    {
        DeviceProbe::Load
    }
}

impl Operation for DeviceProbe {
    type Output = Result<i32, Error>;

    open spec fn wf(&self) -> bool {
        true
    }

    open spec fn pending(&self) -> Request {
        match self {
            DeviceProbe::Load => Request::LoadRuntime,
            DeviceProbe::Init => Request::Init { flags: 0 },
            DeviceProbe::Count => Request::DeviceCount,
        }
    }

    open spec fn next(self, reply: Reply) -> Option<Self> {
        if reply.failure() is Some {
            None
        } else {
            match self {
                DeviceProbe::Load => Some(DeviceProbe::Init),
                DeviceProbe::Init => Some(DeviceProbe::Count),
                DeviceProbe::Count => None,
            }
        }
    }

    /// Any error is passed on.
    open spec fn ends_with(self, reply: Reply, output: Result<i32, Error>) -> bool {
        match reply.failure() {
            Some(e) => output == Err::<i32, Error>(e),
            None => output == Ok::<i32, Error>(reply.count()),
        }
    }

    open spec fn requests_left(&self) -> nat {
        match self {
            DeviceProbe::Load => 3,
            DeviceProbe::Init => 2,
            DeviceProbe::Count => 1,
        }
    }

    proof fn lemma_goes_on(self, reply: Reply) {
    }

    fn request(&self) -> (request: Request) {
        match self {
            DeviceProbe::Load => Request::LoadRuntime,
            DeviceProbe::Init => Request::Init { flags: 0 },
            DeviceProbe::Count => Request::DeviceCount,
        }
    }

    fn advance(self, reply: Reply) -> (step: Step<Self, Self::Output>) {
        let next = match self {
            DeviceProbe::Load => DeviceProbe::Init,
            DeviceProbe::Init => DeviceProbe::Count,
            DeviceProbe::Count => {
                return match reply {
                    Reply::Count(result) => Step::Finished(result),
                    _ => Step::Next(self),
                };
            },
        };
        match failure_of(reply) {
            Some(e) => Step::Finished(Err(e)),
            None => Step::Next(next),
        }
    }
}

/// The exit status of a probe that came to `outcome`: zero where there is a
/// device, one otherwise. Without a platform for HIP there is none.
pub open spec fn probe_status(platform: Platform, outcome: Result<i32, Error>) -> i32 {
    if platform != Platform::Other && (outcome matches Ok(count) && count > 0) {
        0
    } else {
        1
    }
}

/// The exit status of a probe that came to `outcome`.
pub fn inferrs_backend_probe(platform: Platform, outcome: &Result<i32, Error>) -> (status: i32)
    ensures
        status == probe_status(platform, *outcome),
{
    match platform {
        Platform::Other => 1,
        _ => match outcome {
            Ok(count) => if *count > 0 {
                0
            } else {
                1
            },
            Err(_) => 1,
        },
    }
}

} // verus!
