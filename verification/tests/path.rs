use lib::path::{cp_rec, cp_rec_rename, push_path, TreeOp};
use std::path::PathBuf;

fn s(w: &str) -> String {
    w.to_string()
}

fn std_push(base: &str, path: &str) -> String {
    let mut buf = PathBuf::from(base);
    buf.push(path);
    buf.to_string_lossy().into_owned()
}

#[test]
fn push_path_examples() {
    assert_eq!(push_path("dst", "src"), "dst/src");
    assert_eq!(push_path("dst/", "src"), "dst/src");
    assert_eq!(push_path("", "src"), "src");
    assert_eq!(push_path("dst", "/etc"), "/etc");
    assert_eq!(push_path("dst", ""), "dst/");
}

#[test]
fn push_path_agrees_with_pathbuf() {
    let bases = ["", "a", "a/", "/", "/tmp", "a/b", ".", "..", "a//"];
    let paths = ["", "b", "b/c", "/x", "./y", "../z", "é", "b/"];
    for base in bases {
        for path in paths {
            assert_eq!(push_path(base, path), std_push(base, path), "{:?} {:?}", base, path);
        }
    }
}

#[test]
fn cp_rec_file() {
    assert_eq!(
        cp_rec("src/a.txt", "dst", false, &vec![]),
        vec![TreeOp::CreateFile(s("dst/src/a.txt")), TreeOp::CopyFile(s("src/a.txt"), s("dst/src/a.txt"))]
    );
    assert_eq!(
        cp_rec("/tmp/a", "dst", false, &vec![]),
        vec![TreeOp::CreateFile(s("/tmp/a")), TreeOp::CopyFile(s("/tmp/a"), s("/tmp/a"))]
    );
}

#[test]
fn cp_rec_directory_makes_target_for_each_entry() {
    assert_eq!(
        cp_rec("src", "dst", true, &vec![Some(s("src/a")), Some(s("src/b"))]),
        vec![
            TreeOp::CreateDir(s("dst/src")),
            TreeOp::CopyTree(s("src/a")),
            TreeOp::CreateDir(s("dst/src")),
            TreeOp::CopyTree(s("src/b")),
        ]
    );
}

#[test]
fn cp_rec_empty_directory_makes_nothing() {
    assert_eq!(cp_rec("src", "dst", true, &vec![]), vec![]);
}

#[test]
fn cp_rec_unreadable_entry() {
    assert_eq!(
        cp_rec("src", "dst", true, &vec![None]),
        vec![TreeOp::CreateDir(s("dst/src")), TreeOp::EntryFailed]
    );
}

#[test]
fn cp_rec_rename_directory_entry() {
    assert_eq!(
        cp_rec_rename("src", "new/dir", "src/sub/inner", true),
        Some(vec![TreeOp::CreateDir(s("new/dir/inner")), TreeOp::CopyTreeRenamed(s("src/sub/inner"))])
    );
}

#[test]
fn cp_rec_rename_file_entry() {
    assert_eq!(
        cp_rec_rename("src", "new/dir", "src/sub/f.txt", false),
        Some(vec![
            TreeOp::CreateFile(s("new/dir/sub/f.txt")),
            TreeOp::CopyFile(s("src/sub/f.txt"), s("new/dir/sub/f.txt"))
        ])
    );
}

#[test]
fn cp_rec_rename_entry_outside_source() {
    assert_eq!(cp_rec_rename("src", "new/dir", "other/f.txt", false), None);
}

#[test]
fn cp_rec_rename_directory_without_name() {
    assert_eq!(cp_rec_rename("src", "new/dir", "src/..", true), None);
}
