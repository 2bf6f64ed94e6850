use swapper::windows::path::{parts_of, slashed_of, PathPart};

const PREFIX: PathPart = PathPart::Prefix;
const ROOT: PathPart = PathPart::RootDir;
const CUR: PathPart = PathPart::CurDir;
const UP: PathPart = PathPart::ParentDir;
const NAME: PathPart = PathPart::Normal;

#[test]
fn separators_are_unified() {
    assert_eq!(slashed_of("a\\b/c\\"), "a/b/c/");
}

#[test]
fn relative_paths_are_taken_apart() {
    assert_eq!(parts_of(""), vec![]);
    assert_eq!(parts_of("a"), vec![NAME]);
    assert_eq!(parts_of("a/b\\c"), vec![NAME, NAME, NAME]);
    assert_eq!(parts_of("a//b\\.\\c/"), vec![NAME, NAME, NAME]);
    assert_eq!(parts_of("."), vec![CUR]);
    assert_eq!(parts_of("./a/.."), vec![CUR, NAME, UP]);
    assert_eq!(parts_of(".a/..b/..."), vec![NAME, NAME, NAME]);
    assert_eq!(parts_of(".."), vec![UP]);
}

#[test]
fn rooted_paths_are_taken_apart() {
    assert_eq!(parts_of("/"), vec![ROOT]);
    assert_eq!(parts_of("\\a/./b"), vec![ROOT, NAME, NAME]);
    assert_eq!(parts_of("/./a"), vec![ROOT, NAME]);
    assert_eq!(parts_of("//a"), vec![ROOT, NAME]);
    assert_eq!(parts_of("///a"), vec![ROOT, NAME]);
}

#[test]
fn drives_are_prefixes() {
    assert_eq!(parts_of("C:"), vec![PREFIX]);
    assert_eq!(parts_of("c:\\a"), vec![PREFIX, ROOT, NAME]);
    assert_eq!(parts_of("C:a/../b"), vec![PREFIX, NAME, UP, NAME]);
    assert_eq!(parts_of("C:./a"), vec![PREFIX, NAME]);
    assert_eq!(parts_of("1:a"), vec![NAME]);
}

#[test]
fn shares_and_devices_are_prefixes() {
    assert_eq!(parts_of("\\\\server\\share"), vec![PREFIX, ROOT]);
    assert_eq!(parts_of("//server/share/a/.."), vec![PREFIX, ROOT, NAME, UP]);
    assert_eq!(parts_of("\\\\server"), vec![ROOT, NAME]);
    assert_eq!(parts_of("\\\\server\\\\share"), vec![ROOT, NAME, NAME]);
    assert_eq!(parts_of("\\\\.\\COM1"), vec![PREFIX, ROOT]);
    assert_eq!(parts_of("//./pipe/x"), vec![PREFIX, ROOT, NAME]);
}

#[test]
fn verbatim_paths_are_taken_literally() {
    assert_eq!(parts_of("\\\\?\\C:"), vec![PREFIX]);
    assert_eq!(parts_of("\\\\?\\C:\\a/b\\.\\.."), vec![PREFIX, ROOT, NAME, CUR, UP]);
    assert_eq!(parts_of("\\\\?\\C:a\\b"), vec![PREFIX, ROOT, NAME]);
    assert_eq!(parts_of("\\\\?\\UNC\\server\\share\\a"), vec![PREFIX, ROOT, NAME]);
    assert_eq!(parts_of("\\\\?\\UNC/server\\share"), vec![PREFIX]);
    assert_eq!(parts_of("\\\\?\\UNC\\server"), vec![PREFIX]);
    assert_eq!(parts_of("\\\\?\\pictures\\cat"), vec![PREFIX, ROOT, NAME]);
    assert_eq!(parts_of("//?/C:/a"), vec![PREFIX, ROOT, NAME]);
}
