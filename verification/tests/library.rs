use rocm_backend::error::Error;
use rocm_backend::hip::{HipBlas, HipMemcpyKind, HipRand, HipRuntime};
use rocm_backend::library::{
    runtime_library_candidates, secondary_library_candidates, LibraryPath, Platform, RootVars,
};
use rocm_backend::search::{load_symbol, LibrarySearch, SearchStep};

fn vars(rocm: Option<&str>, hip: Option<&str>) -> RootVars {
    RootVars { rocm_path: rocm.map(str::to_string), hip_path: hip.map(str::to_string) }
}

fn parts(paths: &[LibraryPath]) -> Vec<Vec<&str>> {
    paths
        .iter()
        .map(|p| p.parts().iter().map(|s| s.as_str()).collect())
        .collect()
}

/// Runs a search on a system where `opens` tells which places open and `lacks`
/// which entry points are missing, and tells which places were tried.
fn search(
    first: SearchStep,
    opens: impl Fn(&str) -> bool,
    lacks: impl Fn(&str, &str) -> bool,
) -> (Vec<String>, Vec<String>, Result<LibraryPath, Error>) {
    let mut tried = Vec::new();
    let mut looked_up = Vec::new();
    let mut step = first;
    loop {
        step = match step {
            SearchStep::Finished(result) => return (tried, looked_up, result),
            SearchStep::Continue(search) => {
                let place = search.place().parts().join("|");
                match search.symbol() {
                    None => {
                        let opened = opens(&place);
                        tried.push(place);
                        search.opened(opened)
                    }
                    Some(symbol) => {
                        looked_up.push(symbol.to_string());
                        if lacks(&place, symbol) {
                            search.resolved(Err(format!("no {symbol} in {place}")))
                        } else {
                            search.resolved(Ok(()))
                        }
                    }
                }
            }
        };
    }
}

#[test]
fn roots_come_before_bare_names() {
    let names = vec!["libhipblas.so.2", "libhipblas.so"];
    let both = vars(Some("/opt/rocm"), Some("/opt/hip"));
    assert_eq!(
        parts(&secondary_library_candidates(Platform::Linux, &both, &names)),
        vec![
            vec!["/opt/rocm", "lib", "libhipblas.so.2"],
            vec!["/opt/rocm", "lib", "libhipblas.so"],
            vec!["/opt/hip", "lib", "libhipblas.so.2"],
            vec!["/opt/hip", "lib", "libhipblas.so"],
            vec!["libhipblas.so.2"],
            vec!["libhipblas.so"],
        ]
    );
    assert_eq!(
        parts(&secondary_library_candidates(Platform::Linux, &vars(None, None), &names)),
        vec![vec!["libhipblas.so.2"], vec!["libhipblas.so"]]
    );
}

#[test]
fn windows_names_are_dll_names() {
    let names = vec!["libhipblas.so.2", "libhipblas.so", "lib.so", "lib.s", "so"];
    assert_eq!(
        parts(&secondary_library_candidates(
            Platform::WindowsX64,
            &vars(None, Some("C:\\hip")),
            &names
        )),
        vec![
            vec!["C:\\hip", "bin", "libhipblas.so.2"],
            vec!["C:\\hip", "bin", "hipblas.dll"],
            vec!["C:\\hip", "bin", ".dll"],
            vec!["C:\\hip", "bin", "lib.s"],
            vec!["C:\\hip", "bin", "so"],
            vec!["libhipblas.so.2"],
            vec!["hipblas.dll"],
            vec![".dll"],
            vec!["lib.s"],
            vec!["so"],
        ]
    );
}

#[test]
fn runtime_candidates_on_each_platform() {
    let one = vars(Some("/opt/rocm"), None);
    assert_eq!(
        parts(&runtime_library_candidates(Platform::Linux, &one)),
        vec![
            vec!["/opt/rocm", "lib", "libamdhip64.so.7"],
            vec!["/opt/rocm", "lib", "libamdhip64.so.6"],
            vec!["/opt/rocm", "lib", "libamdhip64.so.5"],
            vec!["/opt/rocm", "lib", "libamdhip64.so"],
            vec!["libamdhip64.so.7"],
            vec!["libamdhip64.so.6"],
            vec!["libamdhip64.so.5"],
            vec!["libamdhip64.so"],
        ]
    );
    assert_eq!(
        parts(&runtime_library_candidates(Platform::WindowsX64, &one)),
        vec![vec!["/opt/rocm", "bin", "amdhip64.dll"], vec!["amdhip64.dll"]]
    );
    assert!(runtime_library_candidates(Platform::Other, &one).is_empty());
}

#[test]
fn dropping_repeats_keeps_every_runtime_place() {
    let same = vars(Some("/opt/rocm"), Some("/opt/rocm"));
    let places = runtime_library_candidates(Platform::Linux, &same);
    assert_eq!(places.len(), 12);
    let mut joined: Vec<std::path::PathBuf> = places.iter().map(|p| p.display().into()).collect();
    joined.dedup();
    assert_eq!(joined.len(), 12);
}

#[test]
fn first_place_that_opens_is_taken() {
    let start = HipRuntime::load(Platform::Linux, &vars(Some("/r"), None));
    let (tried, looked_up, result) = search(
        start,
        |place| place == "/r|lib|libamdhip64.so.5" || place == "libamdhip64.so.7",
        |_, _| false,
    );
    assert_eq!(
        tried,
        vec!["/r|lib|libamdhip64.so.7", "/r|lib|libamdhip64.so.6", "/r|lib|libamdhip64.so.5"]
    );
    assert_eq!(
        looked_up,
        vec![
            "hipInit",
            "hipGetDeviceCount",
            "hipSetDevice",
            "hipDeviceSynchronize",
            "hipMalloc",
            "hipFree",
            "hipMemcpy",
            "hipMemset",
            "hipStreamCreate",
            "hipStreamDestroy",
            "hipStreamSynchronize",
            "hipModuleLoadData",
            "hipModuleGetFunction",
            "hipModuleLaunchKernel",
        ]
    );
    let runtime = HipRuntime::from_library(result.unwrap());
    assert_eq!(parts(&[runtime.path().clone()]), vec![vec!["/r", "lib", "libamdhip64.so.5"]]);
}

#[test]
fn first_missing_symbol_ends_the_search() {
    let start = HipBlas::load(Platform::Linux, &vars(None, None));
    let (tried, looked_up, result) =
        search(start, |_| true, |place, symbol| place == "libhipblas.so.2" && symbol == "hipblasDestroy");
    assert_eq!(tried, vec!["libhipblas.so.2"]);
    assert_eq!(looked_up, vec!["hipblasCreate", "hipblasDestroy"]);
    match result {
        Err(Error::SymbolLoad { library, symbol, error }) => {
            assert_eq!(parts(&[library]), vec![vec!["libhipblas.so.2"]]);
            assert_eq!(symbol, "hipblasDestroy");
            assert_eq!(error, "no hipblasDestroy in libhipblas.so.2");
        }
        other => panic!("unexpected {other:?}"),
    }
}

#[test]
fn nothing_opens() {
    let start = HipRand::load(Platform::Linux, &vars(Some("/r"), None));
    let (tried, _, result) = search(start, |_| false, |_, _| false);
    assert_eq!(tried.len(), 4);
    match result {
        Err(Error::LibraryNotFound { candidates }) => assert_eq!(
            parts(&candidates),
            vec![
                vec!["/r", "lib", "libhiprand.so.1"],
                vec!["/r", "lib", "libhiprand.so"],
                vec!["libhiprand.so.1"],
                vec!["libhiprand.so"],
            ]
        ),
        other => panic!("unexpected {other:?}"),
    }
}

#[test]
fn other_platforms_have_no_candidates() {
    let start = HipRuntime::load(Platform::Other, &vars(Some("/r"), Some("/h")));
    match start {
        SearchStep::Finished(Err(Error::LibraryNotFound { candidates })) => {
            assert!(candidates.is_empty())
        }
        other => panic!("unexpected {other:?}"),
    }
}

#[test]
fn a_library_without_entry_points_is_found_at_once() {
    let here = LibraryPath::new(Platform::Linux, vec!["libx.so".to_string()]);
    match LibrarySearch::start(vec![here], vec![]) {
        SearchStep::Continue(search) => {
            assert!(matches!(search.opened(true), SearchStep::Finished(Ok(_))))
        }
        other => panic!("unexpected {other:?}"),
    }
}

#[test]
fn symbols_are_passed_on_or_reported() {
    let here = LibraryPath::new(Platform::Linux, vec!["libx.so".to_string()]);
    assert!(matches!(load_symbol(Ok(7u64), &here, "f"), Ok(7)));
    match load_symbol::<u64>(Err("gone".to_string()), &here, "f") {
        Err(Error::SymbolLoad { library, symbol, error }) => {
            assert_eq!(library.parts(), &vec!["libx.so".to_string()]);
            assert_eq!((symbol, error.as_str()), ("f", "gone"));
        }
        other => panic!("unexpected {other:?}"),
    }
}

#[test]
fn copy_kinds_have_their_numbers() {
    let kinds = [
        HipMemcpyKind::HostToHost,
        HipMemcpyKind::HostToDevice,
        HipMemcpyKind::DeviceToHost,
        HipMemcpyKind::DeviceToDevice,
        HipMemcpyKind::Default,
    ];
    let codes: Vec<i32> = kinds.iter().map(|k| k.code()).collect();
    assert_eq!(codes, vec![0, 1, 2, 3, 4]);
}

#[test]
fn status_codes_are_mapped_for_each_entry_point() {
    let here = || LibraryPath::new(Platform::Linux, vec!["libx.so".to_string()]);
    let runtime = HipRuntime::from_library(here());
    let blas = HipBlas::from_library(here());
    let rand = HipRand::from_library(here());
    assert!(runtime.init(0).is_ok());
    assert_eq!(runtime.device_count(0, 3).unwrap(), 3);
    assert_eq!(runtime.malloc(0, 4096).unwrap(), 4096);
    assert_eq!(runtime.create_stream(0, 5).unwrap(), 5);
    assert_eq!(runtime.module_load_data(0, 6).unwrap(), 6);
    assert_eq!(runtime.module_get_function(0, 7).unwrap(), 7);
    assert_eq!(blas.create_handle(0, 8).unwrap(), 8);
    assert_eq!(rand.create_generator(0, 9).unwrap(), 9);
    let failures = vec![
        runtime.init(1).unwrap_err(),
        runtime.device_count(1, 3).unwrap_err(),
        runtime.set_device(1).unwrap_err(),
        runtime.synchronize(1).unwrap_err(),
        runtime.malloc(1, 4096).unwrap_err(),
        runtime.free(1).unwrap_err(),
        runtime.memcpy(1).unwrap_err(),
        runtime.memset(1).unwrap_err(),
        runtime.create_stream(1, 5).unwrap_err(),
        runtime.destroy_stream(1).unwrap_err(),
        runtime.synchronize_stream(1).unwrap_err(),
        runtime.module_load_data(1, 6).unwrap_err(),
        runtime.module_get_function(1, 7).unwrap_err(),
        runtime.module_launch_kernel(1).unwrap_err(),
        blas.create_handle(1, 8).unwrap_err(),
        blas.destroy_handle(1).unwrap_err(),
        rand.create_generator(1, 9).unwrap_err(),
        rand.destroy_generator(1).unwrap_err(),
    ];
    let names: Vec<String> = failures.iter().map(|e| e.message()).collect();
    let expected: Vec<String> = [
        "hipInit",
        "hipGetDeviceCount",
        "hipSetDevice",
        "hipDeviceSynchronize",
        "hipMalloc",
        "hipFree",
        "hipMemcpy",
        "hipMemset",
        "hipStreamCreate",
        "hipStreamDestroy",
        "hipStreamSynchronize",
        "hipModuleLoadData",
        "hipModuleGetFunction",
        "hipModuleLaunchKernel",
        "hipblasCreate",
        "hipblasDestroy",
        "hiprandCreateGenerator",
        "hiprandDestroyGenerator",
    ]
    .iter()
    .map(|name| format!("{name} failed with HIP error code 1"))
    .collect();
    assert_eq!(names, expected);
}
