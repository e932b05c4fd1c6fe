//! The entry points of the HIP libraries: what they are called, and what their
//! status codes mean.

use crate::error::Error;
use crate::library::{
    runtime_candidates, runtime_library_candidates, secondary_candidates,
    secondary_library_candidates, texts, LibraryPath, PathModel, Platform, RootVars,
};
use crate::search::{LibrarySearch, SearchState, SearchStep};
use vstd::prelude::*;

verus! {

/// From where to where a copy goes.
#[derive(Clone, Copy, Debug, PartialEq, Eq, Structural)]
pub enum HipMemcpyKind {
    HostToHost,
    HostToDevice,
    DeviceToHost,
    DeviceToDevice,
    Default,
}

impl HipMemcpyKind {
    /// The number by which the library knows the kind.
    pub open spec fn number(self) -> i32 {
        match self {
            HipMemcpyKind::HostToHost => 0,
            HipMemcpyKind::HostToDevice => 1,
            HipMemcpyKind::DeviceToHost => 2,
            HipMemcpyKind::DeviceToDevice => 3,
            HipMemcpyKind::Default => 4,
        }
    }

    /// The number by which the library knows the kind.
    pub fn code(self) -> (code: i32)
        ensures
            code == self.number(),
    {
        match self {
            HipMemcpyKind::HostToHost => 0,
            HipMemcpyKind::HostToDevice => 1,
            HipMemcpyKind::DeviceToHost => 2,
            HipMemcpyKind::DeviceToDevice => 3,
            HipMemcpyKind::Default => 4,
        }
    }
}

/// What a call of `api` comes to that ended with the status `code` and left
/// `value` behind: zero is success, and anything else is reported as it is.
pub open spec fn checked<T>(api: &'static str, code: i32, value: T) -> Result<T, Error> {
    if code == 0 {
        Ok(value)
    } else {
        Err(Error::Api { api, code })
    }
}

/// What the status `code` of a call of `api` means.
pub fn map_status(api: &'static str, code: i32) -> (result: Result<(), Error>)
    ensures
        result == checked(api, code, ()),
        result is Ok <==> code == 0,
{
    if code == 0 {
        Ok(())
    } else {
        Err(Error::Api { api, code })
    }
}

/// What the status `code` of a call of `api` that hands out `value` means.
fn map_value(api: &'static str, code: i32, value: usize) -> (result: Result<usize, Error>)
    ensures
        result == checked(api, code, value),
{
    match map_status(api, code) {
        Ok(()) => Ok(value),
        Err(error) => Err(error),
    }
}

/// The entry points of the HIP runtime, in the order in which they are looked up.
pub open spec fn runtime_symbols() -> Seq<Seq<char>> {
    seq![
        "hipInit"@,
        "hipGetDeviceCount"@,
        "hipSetDevice"@,
        "hipDeviceSynchronize"@,
        "hipMalloc"@,
        "hipFree"@,
        "hipMemcpy"@,
        "hipMemset"@,
        "hipStreamCreate"@,
        "hipStreamDestroy"@,
        "hipStreamSynchronize"@,
        "hipModuleLoadData"@,
        "hipModuleGetFunction"@,
        "hipModuleLaunchKernel"@,
    ]
}

/// The HIP runtime, found at some path with all its entry points. The methods
/// take the status with which an entry point returned, and what it handed out.
#[derive(Debug)]
pub struct HipRuntime {
    path: LibraryPath,
}

impl HipRuntime {
    /// The search for the runtime.
    pub fn load(platform: Platform, vars: &RootVars) -> (step: SearchStep)
        ensures
            step.is(
                SearchState::start(runtime_candidates(platform, vars.roots()), runtime_symbols()),
            ),
    {
        let symbols: Vec<&'static str> = vec![
            "hipInit",
            "hipGetDeviceCount",
            "hipSetDevice",
            "hipDeviceSynchronize",
            "hipMalloc",
            "hipFree",
            "hipMemcpy",
            "hipMemset",
            "hipStreamCreate",
            "hipStreamDestroy",
            "hipStreamSynchronize",
            "hipModuleLoadData",
            "hipModuleGetFunction",
            "hipModuleLaunchKernel",
        ];
        assert(texts(symbols@) =~= runtime_symbols());
        LibrarySearch::start(runtime_library_candidates(platform, vars), symbols)
    }

    /// Where the runtime was found.
    pub closed spec fn location(&self) -> PathModel {
        self.path@
    }

    /// The runtime found at `path`.
    pub fn from_library(path: LibraryPath) -> (runtime: Self)
        ensures
            runtime.location() == path@,
    {
        HipRuntime { path }
    }

    /// Where the runtime was found.
    pub fn path(&self) -> (path: &LibraryPath)
        ensures
            path@ == self.location(),
    {
        &self.path
    }

    /// Initializing the runtime.
    pub fn init(&self, code: i32) -> (result: Result<(), Error>)
        ensures
            result == checked("hipInit", code, ()),
    {
        map_status("hipInit", code)
    }

    /// Counting the devices.
    pub fn device_count(&self, code: i32, count: i32) -> (result: Result<i32, Error>)
        ensures
            result == checked("hipGetDeviceCount", code, count),
    {
        match map_status("hipGetDeviceCount", code) {
            Ok(()) => Ok(count),
            Err(error) => Err(error),
        }
    }

    /// Making a device the current one.
    pub fn set_device(&self, code: i32) -> (result: Result<(), Error>)
        ensures
            result == checked("hipSetDevice", code, ()),
    {
        map_status("hipSetDevice", code)
    }

    /// Waiting until the current device is idle.
    pub fn synchronize(&self, code: i32) -> (result: Result<(), Error>)
        ensures
            result == checked("hipDeviceSynchronize", code, ()),
    {
        map_status("hipDeviceSynchronize", code)
    }

    /// Allocating device memory, which lies at `ptr`.
    pub fn malloc(&self, code: i32, ptr: usize) -> (result: Result<usize, Error>)
        ensures
            result == checked("hipMalloc", code, ptr),
    {
        map_value("hipMalloc", code, ptr)
    }

    /// Releasing device memory.
    pub fn free(&self, code: i32) -> (result: Result<(), Error>)
        ensures
            result == checked("hipFree", code, ()),
    {
        map_status("hipFree", code)
    }

    /// Copying memory.
    pub fn memcpy(&self, code: i32) -> (result: Result<(), Error>)
        ensures
            result == checked("hipMemcpy", code, ()),
    {
        map_status("hipMemcpy", code)
    }

    /// Filling device memory.
    pub fn memset(&self, code: i32) -> (result: Result<(), Error>)
        ensures
            result == checked("hipMemset", code, ()),
    {
        map_status("hipMemset", code)
    }

    /// Creating a stream.
    pub fn create_stream(&self, code: i32, stream: usize) -> (result: Result<usize, Error>)
        ensures
            result == checked("hipStreamCreate", code, stream),
    {
        map_value("hipStreamCreate", code, stream)
    }

    /// Destroying a stream.
    pub fn destroy_stream(&self, code: i32) -> (result: Result<(), Error>)
        ensures
            result == checked("hipStreamDestroy", code, ()),
    {
        map_status("hipStreamDestroy", code)
    }

    /// Waiting until a stream is idle.
    pub fn synchronize_stream(&self, code: i32) -> (result: Result<(), Error>)
        ensures
            result == checked("hipStreamSynchronize", code, ()),
    {
        map_status("hipStreamSynchronize", code)
    }

    /// Loading a module.
    pub fn module_load_data(&self, code: i32, module: usize) -> (result: Result<usize, Error>)
        ensures
            result == checked("hipModuleLoadData", code, module),
    {
        map_value("hipModuleLoadData", code, module)
    }

    /// Finding a function of a module.
    pub fn module_get_function(&self, code: i32, function: usize) -> (result: Result<usize, Error>)
        ensures
            result == checked("hipModuleGetFunction", code, function),
    {
        map_value("hipModuleGetFunction", code, function)
    }

    /// Launching a kernel.
    pub fn module_launch_kernel(&self, code: i32) -> (result: Result<(), Error>)
        ensures
            result == checked("hipModuleLaunchKernel", code, ()),
    {
        map_status("hipModuleLaunchKernel", code)
    }
}

/// The hipBLAS library, found at some path with its entry points.
#[derive(Debug)]
pub struct HipBlas {
    path: LibraryPath,
}

impl HipBlas {
    /// The search for the library.
    pub fn load(platform: Platform, vars: &RootVars) -> (step: SearchStep)
        ensures
            step.is(
                SearchState::start(
                    secondary_candidates(
                        platform,
                        vars.roots(),
                        seq!["libhipblas.so.2"@, "libhipblas.so"@],
                    ),
                    seq!["hipblasCreate"@, "hipblasDestroy"@],
                ),
            ),
    {
        let names: Vec<&str> = vec!["libhipblas.so.2", "libhipblas.so"];
        let symbols: Vec<&'static str> = vec!["hipblasCreate", "hipblasDestroy"];
        assert(texts(names@) =~= seq!["libhipblas.so.2"@, "libhipblas.so"@]);
        assert(texts(symbols@) =~= seq!["hipblasCreate"@, "hipblasDestroy"@]);
        LibrarySearch::start(secondary_library_candidates(platform, vars, &names), symbols)
    }

    /// Where the library was found.
    pub closed spec fn location(&self) -> PathModel {
        self.path@
    }

    /// The library found at `path`.
    pub fn from_library(path: LibraryPath) -> (blas: Self)
        ensures
            blas.location() == path@,
    {
        HipBlas { path }
    }

    /// Creating a handle.
    pub fn create_handle(&self, code: i32, handle: usize) -> (result: Result<usize, Error>)
        ensures
            result == checked("hipblasCreate", code, handle),
    {
        map_value("hipblasCreate", code, handle)
    }

    /// Destroying a handle.
    pub fn destroy_handle(&self, code: i32) -> (result: Result<(), Error>)
        ensures
            result == checked("hipblasDestroy", code, ()),
    {
        map_status("hipblasDestroy", code)
    }
}

/// The hipRAND library, found at some path with its entry points.
#[derive(Debug)]
pub struct HipRand {
    path: LibraryPath,
}

impl HipRand {
    /// The search for the library.
    pub fn load(platform: Platform, vars: &RootVars) -> (step: SearchStep)
        ensures
            step.is(
                SearchState::start(
                    secondary_candidates(
                        platform,
                        vars.roots(),
                        seq!["libhiprand.so.1"@, "libhiprand.so"@],
                    ),
                    seq!["hiprandCreateGenerator"@, "hiprandDestroyGenerator"@],
                ),
            ),
    {
        let names: Vec<&str> = vec!["libhiprand.so.1", "libhiprand.so"];
        let symbols: Vec<&'static str> = vec!["hiprandCreateGenerator", "hiprandDestroyGenerator"];
        assert(texts(names@) =~= seq!["libhiprand.so.1"@, "libhiprand.so"@]);
        assert(texts(symbols@) =~= seq!["hiprandCreateGenerator"@, "hiprandDestroyGenerator"@]);
        LibrarySearch::start(secondary_library_candidates(platform, vars, &names), symbols)
    }

    /// Where the library was found.
    pub closed spec fn location(&self) -> PathModel {
        self.path@
    }

    /// The library found at `path`.
    pub fn from_library(path: LibraryPath) -> (rand: Self)
        ensures
            rand.location() == path@,
    {
        HipRand { path }
    }

    /// Creating a generator.
    pub fn create_generator(&self, code: i32, generator: usize) -> (result: Result<usize, Error>)
        ensures
            result == checked("hiprandCreateGenerator", code, generator),
    {
        map_value("hiprandCreateGenerator", code, generator)
    }

    /// Destroying a generator.
    pub fn destroy_generator(&self, code: i32) -> (result: Result<(), Error>)
        ensures
            result == checked("hiprandDestroyGenerator", code, ()),
    {
        map_status("hiprandDestroyGenerator", code)
    }
}

/// A status of zero is success and leaves what was handed out; any other is an
/// error that names the entry point and the status. No two failures look alike.
pub proof fn law_status<T>(api: &'static str, code: i32, value: T, other: i32)
    ensures
        checked(api, code, value) is Ok <==> code == 0,
        checked(api, code, value) matches Ok(handed_out) ==> handed_out == value,
        checked(api, code, value) matches Err(e) ==> (e matches Error::Api { api: a, code: c } && a
            == api && c == code),
        checked(api, code, value) == checked(api, other, value) <==> code == other,
{
}

/// The kinds of copies have the numbers from zero on, in the order of source
/// and destination, host before device.
pub proof fn law_copy_kinds(kind: HipMemcpyKind)
    ensures
        kind is HostToHost <==> kind.number() == 0,
        kind is HostToDevice <==> kind.number() == 1,
        kind is DeviceToHost <==> kind.number() == 2,
        kind is DeviceToDevice <==> kind.number() == 3,
        kind is Default <==> kind.number() == 4,
{
}

/// The entry points of the runtime that are looked up, each by its place.
pub proof fn law_runtime_symbols(i: int)
    ensures
        runtime_symbols().len() == 14,
        i == 0 ==> runtime_symbols()[i] == "hipInit"@,
        i == 1 ==> runtime_symbols()[i] == "hipGetDeviceCount"@,
        i == 2 ==> runtime_symbols()[i] == "hipSetDevice"@,
        i == 3 ==> runtime_symbols()[i] == "hipDeviceSynchronize"@,
        i == 4 ==> runtime_symbols()[i] == "hipMalloc"@,
        i == 5 ==> runtime_symbols()[i] == "hipFree"@,
        i == 6 ==> runtime_symbols()[i] == "hipMemcpy"@,
        i == 7 ==> runtime_symbols()[i] == "hipMemset"@,
        i == 8 ==> runtime_symbols()[i] == "hipStreamCreate"@,
        i == 9 ==> runtime_symbols()[i] == "hipStreamDestroy"@,
        i == 10 ==> runtime_symbols()[i] == "hipStreamSynchronize"@,
        i == 11 ==> runtime_symbols()[i] == "hipModuleLoadData"@,
        i == 12 ==> runtime_symbols()[i] == "hipModuleGetFunction"@,
        i == 13 ==> runtime_symbols()[i] == "hipModuleLaunchKernel"@,
{
}

} // verus!
