use pdf_viewer::launch::document_path;
use pdf_viewer::launch::parse_command;
use pdf_viewer::launch::title_from;
use pdf_viewer::launch::usage;
use pdf_viewer::launch::window_title;
use pdf_viewer::launch::Command;

#[test]
fn commands_are_told_apart() {
    assert_eq!(parse_command(Some("fetch-pdfium")), Command::FetchPdfium);
    assert_eq!(parse_command(Some("fetch")), Command::Usage);
    assert_eq!(parse_command(None), Command::Usage);
    assert_eq!(usage(), "usage: cargo xtask fetch-pdfium");
}

#[test]
fn document_defaults_to_the_example() {
    assert_eq!(document_path(Some("a.pdf".to_string())), "a.pdf");
    assert_eq!(document_path(None), "example.pdf");
}

#[test]
fn title_is_the_file_name() {
    assert_eq!(window_title("example.pdf"), "example.pdf");
    assert_eq!(window_title("docs/paper.pdf"), "paper.pdf");
    assert_eq!(window_title("/tmp/\u{e9}t\u{e9}.pdf"), "\u{e9}t\u{e9}.pdf");
    assert_eq!(window_title("../x"), "x");
    assert_eq!(window_title("docs/"), "docs");
    assert_eq!(window_title("docs//./"), "docs");
    assert_eq!(window_title("./docs/."), "docs");
    assert_eq!(window_title("/docs"), "docs");
    assert_eq!(window_title("..."), "...");
    assert_eq!(window_title("/home/u/Report: final.pdf"), "Report: final.pdf");
    assert_eq!(window_title(":memo.pdf"), ":memo.pdf");
}

#[test]
fn title_falls_back_to_the_path() {
    assert_eq!(window_title("docs/.."), "docs/..");
    assert_eq!(window_title(".."), "..");
    assert_eq!(window_title("../."), "../.");
    assert_eq!(window_title("/"), "/");
    assert_eq!(window_title("."), ".");
    assert_eq!(window_title("./"), "./");
    assert_eq!(window_title(""), "");
    assert_eq!(title_from(None, "p"), "p");
    assert_eq!(title_from(Some("n".to_string()), "p"), "n");
}

#[test]
fn title_is_always_a_piece_of_the_path() {
    for path in ["c:memo.pdf", "c:\\docs\\memo.pdf", "//server/share/memo.pdf", "//a", "\\"] {
        let title = window_title(path);
        assert!(!title.is_empty());
        assert!(path.contains(&title), "{:?} in {:?}", title, path);
    }
}

#[test]
fn title_is_what_this_system_finds() {
    assert_eq!(window_title("C:/docs/memo.pdf"), "memo.pdf");
    assert_eq!(window_title("C:/docs/"), "docs");
    assert_eq!(window_title("C:/.."), "C:/..");
    let path = "C:\\docs\\memo.pdf";
    assert!(window_title(path) == path || window_title(path) == "memo.pdf");
    let path = "docs/a\\b.pdf";
    assert!(window_title(path) == "a\\b.pdf" || window_title(path) == "b.pdf");
}
