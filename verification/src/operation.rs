//! Work on the device, as a dialogue: an operation says what has to be asked of
//! the HIP libraries next, is told what they answered, and goes on from there.

use crate::error::Error;
use crate::hip::HipMemcpyKind;
use crate::matmul::GemmCall;
use vstd::prelude::*;

verus! {

/// What has to be asked of the HIP libraries. Device memory is given by its address.
#[derive(Clone, Copy, Debug, PartialEq, Eq, Structural)]
pub enum Request {
    /// Load the runtime.
    LoadRuntime,
    /// Initialize the runtime.
    Init { flags: u32 },
    /// Make a device the current one.
    SetDevice { ordinal: i32 },
    /// Count the devices.
    DeviceCount,
    /// Wait until the current device is idle.
    Synchronize,
    /// Allocate device memory.
    Malloc { size: usize },
    /// Release device memory.
    Free { ptr: usize },
    /// Copy the operation's bytes to the device.
    CopyIn { dst: usize, size: usize, kind: HipMemcpyKind },
    /// Copy bytes from the device.
    CopyOut { src: usize, size: usize, kind: HipMemcpyKind },
    /// Load hipBLAS.
    LoadBlas,
    /// Create a hipBLAS handle.
    CreateHandle,
    /// Multiply matrices.
    Gemm { call: GemmCall },
}

/// What the HIP libraries answered.
#[derive(Debug)]
pub enum Reply {
    Done(Result<(), Error>),
    Count(Result<i32, Error>),
    Pointer(Result<usize, Error>),
    Bytes(Result<Vec<u8>, Error>),
}

impl Reply {
    /// The error that was answered, if one was.
    pub open spec fn failure(self) -> Option<Error> {
        match self {
            Reply::Done(Err(e)) => Some(e),
            Reply::Count(Err(e)) => Some(e),
            Reply::Pointer(Err(e)) => Some(e),
            Reply::Bytes(Err(e)) => Some(e),
            _ => None,
        }
    }

    /// The number of devices that was answered.
    pub open spec fn count(self) -> i32 {
        match self {
            Reply::Count(Ok(count)) => count,
            _ => 0,
        }
    }

    /// The address that was answered.
    pub open spec fn pointer(self) -> usize {
        match self {
            Reply::Pointer(Ok(ptr)) => ptr,
            _ => 0,
        }
    }

    /// The bytes that were answered.
    pub open spec fn bytes(self) -> Seq<u8> {
        match self {
            Reply::Bytes(Ok(bytes)) => bytes@,
            _ => seq![],
        }
    }
}

/// The error that was answered, if one was.
pub(crate) fn failure_of(reply: Reply) -> (failure: Option<Error>)
    ensures
        failure == reply.failure(),
{
    match reply {
        Reply::Done(Err(e)) => Some(e),
        Reply::Count(Err(e)) => Some(e),
        Reply::Pointer(Err(e)) => Some(e),
        Reply::Bytes(Err(e)) => Some(e),
        _ => None,
    }
}

impl Request {
    /// `reply` is an answer to this request: an error, or what was asked for.
    pub open spec fn takes(self, reply: Reply) -> bool {
        match self {
            Request::DeviceCount => reply is Count,
            Request::Malloc { .. } | Request::CreateHandle => reply is Pointer,
            Request::CopyOut { size, .. } => reply matches Reply::Bytes(result) && (result
                matches Ok(bytes) ==> bytes@.len() == size),
            _ => reply is Done,
        }
    }

    /// Whether `reply` is an answer to this request.
    pub fn accepts(&self, reply: &Reply) -> (accepted: bool)
        ensures
            accepted == self.takes(*reply),
    {
        match self {
            Request::DeviceCount => matches!(reply, Reply::Count(_)),
            Request::Malloc { .. } | Request::CreateHandle => matches!(reply, Reply::Pointer(_)),
            Request::CopyOut { size, .. } => match reply {
                Reply::Bytes(Ok(bytes)) => bytes.len() == *size,
                Reply::Bytes(Err(_)) => true,
                _ => false,
            },
            _ => matches!(reply, Reply::Done(_)),
        }
    }
}

/// What an operation comes to after a reply: it goes on, or ends.
#[derive(Debug)]
pub enum Step<S, T> {
    Next(S),
    Finished(T),
}

/// Work on the device.
pub trait Operation: Sized {
    /// What the work comes to.
    type Output;

    /// The operation is one that can come up.
    spec fn wf(&self) -> bool;

    /// What has to be asked next.
    spec fn pending(&self) -> Request;

    /// How the operation goes on after `reply`, or none where it ends.
    spec fn next(self, reply: Reply) -> Option<Self>;

    /// The operation may end with `output` after `reply`.
    spec fn ends_with(self, reply: Reply, output: Self::Output) -> bool;

    /// How many requests are left at most.
    spec fn requests_left(&self) -> nat;

    /// As long as the operation goes on, it comes nearer to its end.
    proof fn lemma_goes_on(self, reply: Reply)
        requires
            self.wf(),
            self.pending().takes(reply),
        ensures
            self.requests_left() > 0,
            self.next(reply) matches Some(next) ==> next.wf() && next.requests_left()
                < self.requests_left(),
    ;

    /// What has to be asked next.
    fn request(&self) -> (request: Request)
        requires
            self.wf(),
        ensures
            request == self.pending(),
    ;

    /// Goes on after the answer to `request`.
    fn advance(self, reply: Reply) -> (step: Step<Self, Self::Output>)
        requires
            self.wf(),
            self.pending().takes(reply),
        ensures
            match self.next(reply) {
                Some(next) => {
                    &&& step == Step::<Self, Self::Output>::Next(next)
                    &&& next.wf()
                    &&& next.requests_left() < self.requests_left()
                },
                None => step matches Step::Finished(output) && self.ends_with(reply, output),
            },
    ;
}

/// An answer is a success or a failure and says so: the error is the one that
/// was answered, and a success holds the count, the address or the bytes that were.
pub proof fn law_replies(reply: Reply)
    ensures
        match reply {
            Reply::Done(Ok(_)) => reply.failure() is None,
            Reply::Done(Err(e)) => reply.failure() == Some(e),
            Reply::Count(Ok(count)) => reply.failure() is None && reply.count() == count,
            Reply::Count(Err(e)) => reply.failure() == Some(e),
            Reply::Pointer(Ok(ptr)) => reply.failure() is None && reply.pointer() == ptr,
            Reply::Pointer(Err(e)) => reply.failure() == Some(e),
            Reply::Bytes(Ok(bytes)) => reply.failure() is None && reply.bytes() == bytes@,
            Reply::Bytes(Err(e)) => reply.failure() == Some(e),
        },
{
}

/// Every request can be refused with any error. What is otherwise answered is a
/// count to the counting of devices, an address to an allocation or the creation
/// of a handle, as many bytes as asked for to a copy from the device, and
/// nothing to any other request.
pub proof fn law_answers(
    request: Request,
    count: Result<i32, Error>,
    ptr: Result<usize, Error>,
    bytes: Result<Vec<u8>, Error>,
    done: Result<(), Error>,
)
    ensures
        request.takes(Reply::Count(count)) <==> request is DeviceCount,
        request.takes(Reply::Pointer(ptr)) <==> request is Malloc || request is CreateHandle,
        request.takes(Reply::Bytes(bytes)) <==> (request matches Request::CopyOut { size, .. } && (
        bytes matches Ok(b) ==> b@.len() == size)),
        request.takes(Reply::Done(done)) <==> !(request is DeviceCount || request is Malloc
            || request is CreateHandle || request is CopyOut),
{
}

} // verus!
