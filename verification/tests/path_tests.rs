use autosaver::fs::abs::{AbsPathStr, RelPathStr};
use autosaver::fs::path::{check_parts, last_name, parts_eq, PathErrorKind, PathPart, PathStr};
use std::convert::TryFrom;
use std::str::FromStr;

fn text(p: &PathStr) -> String {
    p.path().to_string()
}

#[test]
fn new_accepts_plain_paths() {
    for s in ["a/b", "/a/b", "a/./b", "a/b/", "/", "", "a/b/."] {
        let p = PathStr::new(s.to_string()).unwrap();
        assert_eq!(text(&p), s);
    }
}

#[test]
fn new_rejects_parent_dir() {
    let e = PathStr::new("a/../b".to_string()).unwrap_err();
    assert_eq!(e.kind, PathErrorKind::ParentDir);
    assert_eq!(e.path, "a/../b");
    let e = PathStr::new_from_pathbuf("..".to_string()).unwrap_err();
    assert_eq!(e.kind, PathErrorKind::ParentDir);
}

#[test]
fn new_rejects_current_dir() {
    let e = PathStr::new("./a".to_string()).unwrap_err();
    assert_eq!(e.kind, PathErrorKind::CurrentDir);
    assert_eq!(e.path, "./a");
    let e = PathStr::new(".".to_string()).unwrap_err();
    assert_eq!(e.kind, PathErrorKind::CurrentDir);
}

#[test]
fn first_offending_component_decides() {
    assert_eq!(PathStr::new("./..".to_string()).unwrap_err().kind, PathErrorKind::CurrentDir);
    assert_eq!(PathStr::new("../a".to_string()).unwrap_err().kind, PathErrorKind::ParentDir);
}

#[test]
fn views_give_the_text_back() {
    let p = PathStr::new("/x/y".to_string()).unwrap();
    assert_eq!(p.to_str(), Some("/x/y"));
    assert_eq!(p.to_string_lossy(), "/x/y");
    assert_eq!(p.display(), "/x/y");
}

#[test]
fn same_path_compares_components() {
    let a = PathStr::new("a//b/".to_string()).unwrap();
    let b = PathStr::new("a/b".to_string()).unwrap();
    let c = PathStr::new("a/c".to_string()).unwrap();
    let d = PathStr::new("/a/b".to_string()).unwrap();
    assert!(a.same_path(&b));
    assert!(b.same_path(&a));
    assert!(a.same_path(&a));
    assert!(!a.same_path(&c));
    assert!(!b.same_path(&d));
}

#[test]
fn basename_is_the_last_name() {
    let p = PathStr::new("/home/user/file.txt".to_string()).unwrap();
    assert_eq!(text(&p.basename().unwrap()), "file.txt");
    let p = PathStr::new("a/b/".to_string()).unwrap();
    assert_eq!(text(&p.basename().unwrap()), "b");
}

#[test]
fn basename_of_root_is_an_error() {
    let p = PathStr::new("/".to_string()).unwrap();
    let e = p.basename().unwrap_err();
    assert_eq!(e.kind, PathErrorKind::NoBasename);
    assert_eq!(e.path, "/");
    let p = PathStr::new("".to_string()).unwrap();
    assert_eq!(p.basename().unwrap_err().kind, PathErrorKind::NoBasename);
}

#[test]
fn try_from_and_from_str_validate() {
    assert!(PathStr::try_from("a/b".to_string()).is_ok());
    assert_eq!(PathStr::try_from("a/..".to_string()).unwrap_err().kind, PathErrorKind::ParentDir);
    assert!(PathStr::from_str("a/b").is_ok());
    assert_eq!(PathStr::from_str("./b").unwrap_err().kind, PathErrorKind::CurrentDir);
}

#[test]
fn clone_keeps_the_text() {
    let p = PathStr::new("/q".to_string()).unwrap();
    assert_eq!(text(&p.clone()), "/q");
}

#[test]
fn absolute_paths_start_at_the_root() {
    let a = AbsPathStr::new_from_pathbuf("/etc/x".to_string()).unwrap();
    assert_eq!(a.path(), "/etc/x");
    let e = AbsPathStr::new_from_pathbuf("etc/x".to_string()).unwrap_err();
    assert_eq!(e.kind, PathErrorKind::NotAbsolute);
    assert_eq!(e.path, "etc/x");
    let e = AbsPathStr::from_str("/etc/../x").unwrap_err();
    assert_eq!(e.kind, PathErrorKind::ParentDir);
}

#[test]
fn relative_paths_do_not_start_at_the_root() {
    let r = RelPathStr::from_text("a/b").unwrap();
    assert_eq!(r.path(), "a/b");
    let e = RelPathStr::from_str("/a").unwrap_err();
    assert_eq!(e.kind, PathErrorKind::NotRelative);
    assert_eq!(RelPathStr::new_from_pathbuf("./a".to_string()).unwrap_err().kind, PathErrorKind::CurrentDir);
}

#[test]
fn no_text_is_both_absolute_and_relative() {
    for s in ["/a", "a", "", "/"] {
        let abs = AbsPathStr::from_str(s).is_ok();
        let rel = RelPathStr::from_str(s).is_ok();
        assert!(abs != rel);
    }
}

#[test]
fn join_adds_one_separator() {
    let base = AbsPathStr::from_str("/root").unwrap();
    let rel = RelPathStr::from_str("backup").unwrap();
    let j = base.join(&rel).unwrap();
    assert_eq!(j.path(), "/root/backup");
    assert!(j.path().starts_with(base.path()));
    let slash = AbsPathStr::from_str("/").unwrap();
    assert_eq!(slash.join(&rel).unwrap().path(), "/backup");
    let trailing = AbsPathStr::from_str("/root/").unwrap();
    assert_eq!(trailing.join(&rel).unwrap().path(), "/root/backup");
}

#[test]
fn to_rel_strips_the_base() {
    let base = AbsPathStr::from_str("/cfg").unwrap();
    let p = AbsPathStr::from_str("/cfg/a/b.conf").unwrap();
    assert_eq!(p.to_rel(&base).unwrap().path(), "a/b.conf");
    let q = AbsPathStr::from_str("/other/x").unwrap();
    let e = q.to_rel(&base).unwrap_err();
    assert_eq!(e.kind, PathErrorKind::NotUnderBase);
    assert_eq!(e.path, "/other/x");
    let near = AbsPathStr::from_str("/cfgx/a").unwrap();
    assert_eq!(near.to_rel(&base).unwrap_err().kind, PathErrorKind::NotUnderBase);
}

#[test]
fn paths_with_the_same_components_are_equal() {
    let p = |s: &str| PathStr::new(s.to_string()).unwrap();
    assert_eq!(p("a//b"), p("a/b"));
    assert_eq!(p("a/./b"), p("a/b"));
    assert_eq!(p("a/b/"), p("a/b"));
    assert_ne!(p("a/b"), p("a/c"));
    assert_ne!(p("/a/b"), p("a/b"));
    assert_eq!(AbsPathStr::from_str("/x//y/").unwrap(), AbsPathStr::from_str("/x/y").unwrap());
    assert_ne!(AbsPathStr::from_str("/x/y").unwrap(), AbsPathStr::from_str("/x/z").unwrap());
    assert_eq!(RelPathStr::from_str("x/./y").unwrap(), RelPathStr::from_str("x/y").unwrap());
    assert!(RelPathStr::from_str("x/y").unwrap().same_path(&RelPathStr::from_str("x//y").unwrap()));
    assert!(AbsPathStr::from_str("/x").unwrap().same_path(&AbsPathStr::from_str("/x/").unwrap()));
}

#[test]
fn the_split_follows_the_documented_rules() {
    let ok = |s: &str| PathStr::new(s.to_string()).is_ok();
    assert!(ok("/./a"));
    assert!(ok("a/."));
    assert!(ok(".a/b"));
    assert!(ok("a/..b"));
    assert_eq!(PathStr::new(".//a".to_string()).unwrap_err().kind, PathErrorKind::CurrentDir);
    assert_eq!(PathStr::new("a/..".to_string()).unwrap_err().kind, PathErrorKind::ParentDir);
    assert_eq!(PathStr::new("/..".to_string()).unwrap_err().kind, PathErrorKind::ParentDir);
    let p = |s: &str| PathStr::new(s.to_string()).unwrap();
    assert_eq!(p("/./a"), p("/a"));
    assert_eq!(p("//a"), p("/a"));
    assert_ne!(p("a"), p("/a"));
}

#[test]
fn parts_are_checked_in_order() {
    let n = |s: &str| PathPart::Normal(s.to_string());
    assert_eq!(check_parts(&vec![PathPart::Root, n("a"), n("b")]), None);
    assert_eq!(check_parts(&vec![n("a"), PathPart::Parent, PathPart::Current]), Some(PathErrorKind::ParentDir));
    assert_eq!(check_parts(&vec![PathPart::Current, PathPart::Parent]), Some(PathErrorKind::CurrentDir));
    assert_eq!(check_parts(&vec![]), None);
    assert_eq!(last_name(&vec![PathPart::Root, n("a")]), Some("a".to_string()));
    assert_eq!(last_name(&vec![PathPart::Root]), None);
    assert_eq!(last_name(&vec![n("a"), PathPart::Parent]), None);
    assert_eq!(last_name(&vec![]), None);
    assert!(parts_eq(&vec![PathPart::Root, n("a")], &vec![PathPart::Root, n("a")]));
    assert!(!parts_eq(&vec![PathPart::Root, n("a")], &vec![n("a")]));
    assert!(!parts_eq(&vec![n("a")], &vec![n("b")]));
}
