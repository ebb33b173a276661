use pdf_viewer::manifest::pinned_version;

/// The reading of a manifest's text by std alone.
fn by_std(pin: &str) -> Option<String> {
    pin.lines()
        .find(|l| l.starts_with("version"))
        .and_then(|l| l.split('"').nth(1))
        .map(|v| v.to_string())
}

#[test]
fn version_is_read() {
    let text = "# pins\nversion = \"chromium/7350\"\n\n[checksums]\nmac-x64 = \"00\"\n";
    assert_eq!(pinned_version(text), Some("chromium/7350".to_string()));
}

#[test]
fn version_line_comes_first() {
    assert_eq!(pinned_version("version = \"1\"\nversion = \"2\"\n"), Some("1".to_string()));
}

#[test]
fn odd_texts_are_read_as_std_reads_them() {
    for text in [
        "",
        "\n",
        "version",
        "version\n",
        "version = 1\nversion = \"2\"",
        "version = \"a",
        "version = \"a\r\n",
        "version = \"a\r",
        "version = \"\"",
        "version = \"\r\n",
        "version = \"",
        " version = \"a\"",
        "versions = \"b\"",
        "x\r\nversion=\"c\"\r\ny",
        "\r\n\r\nversion=\"d\"e\"f\"",
        "\u{e9}\nversion = \"\u{1f600}\u{e9}\" # ok",
        "vers\nion = \"x\"",
        "name = \"version\"",
        "\rversion = \"q\"",
    ] {
        assert_eq!(pinned_version(text), by_std(text), "{:?}", text);
    }
}
