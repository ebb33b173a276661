use pdf_viewer::staging::profile_directory;
use pdf_viewer::staging::StageError;
use pdf_viewer::staging::StagePlan;

const TEXT: &str = "version = \"chromium/7350\"\n";

fn names(texts: &[Option<&str>]) -> Vec<Option<String>> {
    texts.iter().map(|t| t.map(|s| s.to_string())).collect()
}

#[test]
fn engine_is_staged_from_the_cache() {
    let plan = StagePlan::new(TEXT, "macos", "aarch64").unwrap();
    assert_eq!(plan.key, "mac-arm64");
    assert_eq!(plan.directories, vec![".pdfium-cache", "chromium/7350", "mac-arm64"]);
    assert_eq!(plan.library, "libpdfium.dylib");
}

#[test]
fn text_without_version_is_refused() {
    let error = StagePlan::new("[checksums]\n", "plan9", "mips").unwrap_err();
    assert!(matches!(error, StageError::NoVersion));
    assert_eq!(error.message(), "couldn't parse version from pdfium.toml");
}

#[test]
fn unsupported_target_is_not_staged() {
    let error = StagePlan::new(TEXT, "plan9", "mips").unwrap_err();
    assert!(matches!(error, StageError::UnsupportedTarget));
    assert_eq!(error.message(), "unsupported target");
}

#[test]
fn incomplete_engine_is_not_staged() {
    let plan = StagePlan::new(TEXT, "linux", "x86_64").unwrap();
    let error = plan.destination(false, &names(&[Some("debug")])).unwrap_err();
    assert_eq!(
        error.message(),
        "pdfium not found for linux-x64. Run `cargo xtask fetch-pdfium` first."
    );
}

#[test]
fn library_goes_to_the_profile_directory() {
    let plan = StagePlan::new(TEXT, "windows", "x86_64").unwrap();
    let ancestors = names(&[
        Some("out"),
        Some("app-0123"),
        Some("build"),
        Some("release"),
        Some("target"),
        Some("debug"),
        None,
    ]);
    assert_eq!(plan.destination(true, &ancestors).unwrap(), 3);
    let error = plan.destination(true, &names(&[Some("out"), None])).unwrap_err();
    assert!(matches!(error, StageError::NoProfileDirectory));
    assert_eq!(error.message(), "couldn't locate target/<profile> from OUT_DIR");
}

#[test]
fn profile_directory_is_the_innermost() {
    assert_eq!(profile_directory(&names(&[None, Some("debug"), Some("release")])), Some(1));
    assert_eq!(profile_directory(&names(&[Some("Debug"), Some("debugger")])), None);
    assert_eq!(profile_directory(&Vec::new()), None);
}
