use yadl::failure::Failure;
use yadl::http::Status;
use yadl::output::{info_lines, output_name, sanitize};
use yadl::session::Resolved;
use yadl::transfer::{range_header, start_offset, Transfer};

fn status(code: u16) -> Status {
    Status::new(code).unwrap()
}

#[test]
fn sanitize_replaces_separators() {
    assert_eq!(sanitize("a/b\\c\0d"), "a_b_c_d");
    assert_eq!(sanitize("../../etc/passwd"), ".._.._etc_passwd");
    assert_eq!(sanitize("файл.bin"), "файл.bin");
    assert_eq!(sanitize(" .a. "), " .a. ");
}

#[test]
fn sanitize_gives_blank_names_the_default() {
    for name in ["", " ", ".", "..", " .. ", "\u{3000}...\t", "\n"] {
        assert_eq!(sanitize(name), "download.bin", "{:?}", name);
    }
    assert_eq!(sanitize(". ."), ". .");
    assert_eq!(sanitize("/"), "_");
}

#[test]
fn sanitize_twice_is_sanitize_once() {
    for name in ["a/b", "", "..", " x ", "\\", ". .", "z\0"] {
        let once = sanitize(name);
        assert_eq!(sanitize(&once), once);
        assert!(!once.is_empty() && !once.contains(['/', '\\', '\0']));
    }
}

#[test]
fn folders_are_saved_as_archives() {
    assert_eq!(output_name("docs", "dir"), "docs.zip");
    assert_eq!(output_name("docs.zip", "dir"), "docs.zip");
    assert_eq!(output_name("..", "dir"), "...zip");
    assert_eq!(output_name("", "dir"), ".zip");
    assert_eq!(output_name("a/b", "dir"), "a_b.zip");
    assert_eq!(output_name("docs", "file"), "docs");
    assert_eq!(output_name("zip", "dir"), "zip.zip");
}

#[test]
fn info_names_what_is_known() {
    let mut res = Resolved {
        name: "f.bin".to_string(),
        kind: "file".to_string(),
        size: Some(1024),
        md5: Some("aa".to_string()),
        sha256: Some("bb".to_string()),
        href: "https://d/x".to_string(),
        via: "cloud-api".to_string(),
    };
    assert_eq!(
        info_lines(&res),
        vec![
            "name:   f.bin",
            "type:   file",
            "size:   1024 bytes",
            "md5:    aa",
            "sha256: bb",
            "via:    cloud-api",
            "href:   https://d/x",
        ]
    );
    res.size = None;
    res.md5 = None;
    res.sha256 = None;
    assert_eq!(
        info_lines(&res),
        vec!["name:   f.bin", "type:   file", "via:    cloud-api", "href:   https://d/x"]
    );
}

#[test]
fn transfer_starts_where_the_file_ends() {
    assert_eq!(start_offset(true, Some(10)), 10);
    assert_eq!(start_offset(true, None), 0);
    assert_eq!(start_offset(false, Some(10)), 0);
    assert_eq!(range_header(10).as_deref(), Some("bytes=10-"));
    assert_eq!(range_header(0), None);
}

#[test]
fn resumed_transfer_appends() {
    let mut t = Transfer::begin(10, status(206), "", Some(5), Some(15)).unwrap();
    assert_eq!(t, Transfer { offset: 10, written: 10, total: Some(15), expected: Some(15) });
    assert!(!t.truncates());
    t.advance(2);
    t.advance(3);
    assert_eq!(t.written, 15);
    assert_eq!(t.finish(), Ok(()));
}

#[test]
fn ignored_range_starts_over() {
    let t = Transfer::begin(10, status(200), "", Some(15), Some(15)).unwrap();
    assert_eq!(t, Transfer { offset: 0, written: 0, total: Some(15), expected: Some(15) });
    assert!(t.truncates());
}

#[test]
fn total_falls_back_to_the_announced_size() {
    assert_eq!(Transfer::begin(4, status(206), "", None, Some(9)).unwrap().total, Some(9));
    assert_eq!(Transfer::begin(4, status(206), "", None, None).unwrap().total, None);
    assert_eq!(Transfer::begin(4, status(206), "", Some(1), Some(9)).unwrap().total, Some(5));
}

#[test]
fn transfer_of_the_wrong_size_fails() {
    let mut t = Transfer::begin(0, status(200), "", None, Some(3)).unwrap();
    t.advance(2);
    let failure = t.finish().unwrap_err();
    assert_eq!(failure, Failure::SizeMismatch { received: 2, expected: 3 });
    assert_eq!(failure.message(), "размер не совпал: получено 2, ожидалось 3");
    let mut unknown = Transfer::begin(0, status(200), "", None, None).unwrap();
    unknown.advance(2);
    assert_eq!(unknown.finish(), Ok(()));
}

#[test]
fn error_status_starts_no_transfer() {
    let report = "HTTP status client error (416 Range Not Satisfiable) for url (https://d/x)";
    for code in [400, 416, 499, 500, 599] {
        let failure = Transfer::begin(8, status(code), report, Some(5), Some(13)).unwrap_err();
        assert_eq!(failure, Failure::StatusRefused { code, report: report.to_string() });
        assert_eq!(failure.message(), report);
        assert_eq!(failure.cause(), None);
    }
    assert!(Transfer::begin(8, status(399), "", None, None).is_ok());
    assert!(Transfer::begin(8, status(600), "", None, None).is_ok());
}
