use pdf_viewer::digest::checksum;
use pdf_viewer::fetch::complete_marker;
use pdf_viewer::fetch::download_url;
use pdf_viewer::fetch::judge_archive;
use pdf_viewer::fetch::with_escaped_slashes;
use pdf_viewer::fetch::Fetch;
use pdf_viewer::fetch::FetchError;
use pdf_viewer::fetch::FetchEvent;
use pdf_viewer::fetch::FetchPlan;
use pdf_viewer::manifest::Manifest;

fn manifest(checksum: &str) -> Manifest {
    let mut manifest = Manifest::new("chromium/7350".to_string());
    manifest.pin("mac-x64".to_string(), "ff".to_string());
    manifest.pin("linux-x64".to_string(), "00".to_string());
    manifest.pin("linux-x64".to_string(), checksum.to_string());
    manifest
}

fn start(checksum: &str) -> Fetch {
    Fetch::start(&manifest(checksum), "linux", "x86_64").unwrap()
}

fn plan(fetch: Fetch) -> FetchPlan {
    match fetch {
        Fetch::Probe(plan) => plan,
        other => panic!("not at the start: {:?}", other),
    }
}

#[test]
fn url_escapes_the_version() {
    assert_eq!(
        download_url("chromium/7350", "mac-arm64"),
        "https://github.com/bblanchon/pdfium-binaries/releases/download/chromium%2F7350/pdfium-mac-arm64.tgz"
    );
}

#[test]
fn slashes_are_escaped_as_std_replaces_them() {
    for text in ["", "/", "//", "a/b/c", "a%2Fb", "\u{e9}/\u{1f600}", "none"] {
        assert_eq!(with_escaped_slashes(text), text.replace('/', "%2F"));
    }
}

#[test]
fn plan_holds_what_the_manifest_pins() {
    let plan = plan(start("abc"));
    assert_eq!(plan.version, "chromium/7350");
    assert_eq!(plan.key, "linux-x64");
    assert_eq!(plan.expected, "abc");
    assert_eq!(plan.destination, vec![".pdfium-cache", "chromium/7350", "linux-x64"]);
    assert_eq!(
        plan.url,
        "https://github.com/bblanchon/pdfium-binaries/releases/download/chromium%2F7350/pdfium-linux-x64.tgz"
    );
    assert_eq!(complete_marker(), ".complete");
}

#[test]
fn unsupported_target_is_refused() {
    let error = Fetch::start(&manifest("abc"), "plan9", "mips").unwrap_err();
    assert!(matches!(error, FetchError::UnsupportedTarget(_)));
    assert_eq!(error.message(), "unsupported target: plan9-mips");
}

#[test]
fn missing_checksum_is_refused() {
    let error = Fetch::start(&manifest("abc"), "windows", "x86_64").unwrap_err();
    assert!(matches!(error, FetchError::NoChecksum { .. }));
    assert_eq!(error.message(), "no checksum pinned for win-x64 in pdfium.toml");
}

#[test]
fn cached_engine_is_kept() {
    let fetch = start("abc").step(FetchEvent::MarkerChecked(true)).unwrap();
    assert!(matches!(fetch, Fetch::Cached(_)));
    let fetch = fetch.step(FetchEvent::Downloaded(vec![1])).unwrap();
    assert!(matches!(fetch, Fetch::Cached(_)));
}

#[test]
fn pinned_archive_is_installed() {
    let archive = b"archive".to_vec();
    let mut fetch = start(&checksum(&archive));
    fetch = fetch.step(FetchEvent::MarkerChecked(false)).unwrap();
    assert!(matches!(fetch, Fetch::CreateDestination(_)));
    fetch = fetch.step(FetchEvent::DestinationCreated).unwrap();
    assert!(matches!(fetch, Fetch::Download(_)));
    fetch = fetch.step(FetchEvent::Downloaded(archive.clone())).unwrap();
    match &fetch {
        Fetch::Unpack(_, bytes) => assert_eq!(*bytes, archive),
        other => panic!("not to be unpacked: {:?}", other),
    }
    fetch = fetch.step(FetchEvent::Unpacked).unwrap();
    assert!(matches!(fetch, Fetch::Mark(_)));
    fetch = fetch.step(FetchEvent::MarkerWritten).unwrap();
    assert!(matches!(fetch, Fetch::Ready(_)));
}

#[test]
fn other_archive_is_refused() {
    let mut fetch = start("abc");
    fetch = fetch.step(FetchEvent::MarkerChecked(false)).unwrap();
    fetch = fetch.step(FetchEvent::DestinationCreated).unwrap();
    let error = fetch.step(FetchEvent::Downloaded(Vec::new())).unwrap_err();
    assert!(matches!(error, FetchError::ChecksumMismatch { .. }));
    assert_eq!(
        error.message(),
        "checksum mismatch for linux-x64\n  expected: abc\n  actual:   \
         e3b0c44298fc1c149afbf4c8996fb92427ae41e4649b934ca495991b7852b855"
    );
}

#[test]
fn upper_case_checksum_matches_nothing() {
    let archive = b"abc".to_vec();
    let mut fetch = start(&checksum(&archive).to_uppercase());
    fetch = fetch.step(FetchEvent::MarkerChecked(false)).unwrap();
    fetch = fetch.step(FetchEvent::DestinationCreated).unwrap();
    assert!(fetch.step(FetchEvent::Downloaded(archive)).is_err());
}

#[test]
fn archive_is_judged_by_its_checksum() {
    let accepted = judge_archive(plan(start("abc")), vec![7], "abc".to_string());
    assert!(matches!(accepted, Ok(Fetch::Unpack(_, _))));
    let refused = judge_archive(plan(start("abc")), vec![7], "abd".to_string());
    assert!(matches!(refused, Err(FetchError::ChecksumMismatch { .. })));
}

#[test]
fn events_out_of_turn_change_nothing() {
    let fetch = start("abc").step(FetchEvent::Unpacked).unwrap();
    assert!(matches!(fetch, Fetch::Probe(_)));
    let fetch = fetch.step(FetchEvent::MarkerWritten).unwrap();
    assert!(matches!(fetch, Fetch::Probe(_)));
}
