use json_devil::filename::file_name_component;
use std::path::Path;

#[test]
fn simple_relative_path() {
    assert_eq!(file_name_component("pdfs/a.pdf"), "a.pdf");
}

#[test]
fn bare_name() {
    assert_eq!(file_name_component("hello.pdf"), "hello.pdf");
}

#[test]
fn nested_absolute_path() {
    assert_eq!(file_name_component("/a/b/c/report.pdf"), "report.pdf");
}

#[test]
fn trailing_separator_is_ignored() {
    assert_eq!(file_name_component("a/b/"), "b");
    assert_eq!(file_name_component("a/b///"), "b");
}

#[test]
fn root_has_no_name() {
    assert_eq!(file_name_component("/"), "");
    assert_eq!(file_name_component("//"), "");
}

#[test]
fn empty_path_has_no_name() {
    assert_eq!(file_name_component(""), "");
}

#[test]
fn parent_component_has_no_name() {
    assert_eq!(file_name_component(".."), "");
    assert_eq!(file_name_component("a/.."), "");
    assert_eq!(file_name_component("/.."), "");
}

#[test]
fn current_dir_component_is_skipped() {
    assert_eq!(file_name_component("."), "");
    assert_eq!(file_name_component("a/."), "a");
    assert_eq!(file_name_component("a/./"), "a");
    assert_eq!(file_name_component("./a"), "a");
}

#[test]
fn dotted_names_are_ordinary() {
    assert_eq!(file_name_component("a/.hidden"), ".hidden");
    assert_eq!(file_name_component("a/..."), "...");
    assert_eq!(file_name_component("a/b.tar.gz"), "b.tar.gz");
}

#[test]
fn agrees_with_platform_file_name() {
    let paths = [
        "",
        "/",
        "//",
        ".",
        "..",
        "./",
        "../",
        "a",
        "a/",
        "a//",
        "/a",
        "a/b",
        "a/b/",
        "a/.",
        "a/./",
        "a/..",
        "a/../",
        "./a",
        "../a",
        "a/.hidden",
        "a/...",
        "pdfs/WW Guide 3-25-1.pdf",
        "/long/chain/of/dirs/name.pdf",
        "name with spaces.pdf",
        "ünïcode/ドキュメント.pdf",
    ];
    for p in paths {
        let expected = Path::new(p)
            .file_name()
            .map(|n| n.to_string_lossy().into_owned())
            .unwrap_or_default();
        assert_eq!(file_name_component(p), expected, "path {:?}", p);
    }
}
