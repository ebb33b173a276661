use pdf_viewer::target::library_name;
use pdf_viewer::target::target_key;

#[test]
fn supported_targets_have_keys() {
    assert_eq!(target_key("macos", "aarch64").unwrap(), "mac-arm64");
    assert_eq!(target_key("macos", "x86_64").unwrap(), "mac-x64");
    assert_eq!(target_key("windows", "x86_64").unwrap(), "win-x64");
    assert_eq!(target_key("linux", "x86_64").unwrap(), "linux-x64");
}

#[test]
fn other_targets_are_refused() {
    let error = target_key("linux", "aarch64").unwrap_err();
    assert_eq!(error.os, "linux");
    assert_eq!(error.arch, "aarch64");
    assert_eq!(error.message(), "unsupported target: linux-aarch64");
    assert!(target_key("windows", "aarch64").is_err());
    assert!(target_key("macOS", "aarch64").is_err());
    assert!(target_key("", "").is_err());
}

#[test]
fn library_is_named_after_the_system() {
    assert_eq!(library_name("windows"), "pdfium.dll");
    assert_eq!(library_name("macos"), "libpdfium.dylib");
    assert_eq!(library_name("linux"), "libpdfium.so");
    assert_eq!(library_name("freebsd"), "libpdfium.so");
}
