use rocm_backend::error::{map_hip_err, BackendError, Error};
use rocm_backend::library::{LibraryPath, Platform};

fn path(parts: &[&str]) -> LibraryPath {
    LibraryPath::new(Platform::Linux, parts.iter().map(|p| p.to_string()).collect())
}

#[test]
fn unsupported_platform_message() {
    assert_eq!(
        Error::UnsupportedPlatform.message(),
        "HIP is not supported on this platform"
    );
}

#[test]
fn api_message_names_call_and_code() {
    let error = Error::Api { api: "hipMalloc", code: 2 };
    assert_eq!(error.message(), "hipMalloc failed with HIP error code 2");
    let error = Error::Api { api: "hipInit", code: -3 };
    assert_eq!(error.message(), "hipInit failed with HIP error code -3");
}

#[test]
fn symbol_message_names_symbol_library_and_reason() {
    let error = Error::SymbolLoad {
        library: path(&["libamdhip64.so"]),
        symbol: "hipInit",
        error: "undefined symbol".to_string(),
    };
    assert_eq!(
        error.message(),
        "failed to load symbol hipInit from libamdhip64.so: undefined symbol"
    );
    assert_eq!(
        error.message_showing(&vec!["elsewhere".to_string()]),
        "failed to load symbol hipInit from elsewhere: undefined symbol"
    );
}

#[test]
fn not_found_message_lists_quoted_candidates() {
    let error = Error::LibraryNotFound {
        candidates: vec![path(&["a \"b\".so"]), path(&["libhipblas.so"])],
    };
    assert_eq!(
        error.message(),
        "could not load HIP library from any of [\"a \\\"b\\\".so\", \"libhipblas.so\"]"
    );
    let none = Error::LibraryNotFound { candidates: vec![] };
    assert_eq!(none.message(), "could not load HIP library from any of []");
}

#[test]
fn not_found_message_shows_joined_paths() {
    let error = Error::LibraryNotFound {
        candidates: vec![path(&["/opt/rocm", "lib", "libamdhip64.so"])],
    };
    assert_eq!(
        error.message(),
        "could not load HIP library from any of [\"/opt/rocm/lib/libamdhip64.so\"]"
    );
}

#[test]
fn paths_are_joined_as_the_platform_joins_them() {
    let cases: Vec<Vec<&str>> = vec![
        vec!["/opt/rocm", "lib", "libamdhip64.so"],
        vec!["/opt/rocm/", "lib", "libamdhip64.so"],
        vec!["root", "lib/", "x.so"],
        vec!["", "lib", "x.so"],
        vec!["/", "lib", "x.so"],
        vec!["root", "/lib", "x.so"],
        vec!["root", "", "x.so"],
        vec!["r\u{f6}t", "lib", "x.so"],
        vec!["libamdhip64.so"],
    ];
    for parts in cases {
        let mut expected = std::path::PathBuf::new();
        for part in &parts {
            expected.push(part);
        }
        let expected = expected.display().to_string();
        assert_eq!(path(&parts).display(), expected);
        let owned = parts.iter().map(|p| p.to_string()).collect();
        assert_eq!(LibraryPath::new(Platform::Other, owned).display(), expected);
    }
}

#[test]
fn places_under_a_root_keep_root_directory_and_file_in_order() {
    for platform in [Platform::WindowsX64, Platform::Other] {
        for root in ["C:\\ROCm", "root", "root/", "C:"] {
            let parts = [root, "bin", "amdhip64.dll"].map(|p| p.to_string()).to_vec();
            let text = LibraryPath::new(platform, parts).display();
            let rest = text.strip_prefix(root).unwrap();
            let rest = rest.strip_prefix(|c| c == '/' || c == '\\').unwrap_or(rest);
            let rest = rest.strip_prefix("bin").unwrap();
            let rest = rest.strip_prefix(|c| c == '/' || c == '\\').unwrap();
            assert_eq!(rest, "amdhip64.dll");
        }
        let alone = LibraryPath::new(platform, vec!["amdhip64.dll".to_string()]);
        assert_eq!(alone.display(), "amdhip64.dll");
    }
}

#[test]
fn library_failures_are_wrapped() {
    let wrapped = map_hip_err(Error::Api { api: "hipFree", code: 1 });
    assert!(matches!(
        wrapped,
        BackendError::Wrapped(Error::Api { api: "hipFree", code: 1 })
    ));
}
