use std::cell::RefCell;
use vylo_share::names::{
    drag_staging_name, is_stale_staging, receive_paths, sanitize_name, sanitize_rel_path,
    tree_staging_name, unique_dir_path, unique_path, Location, MAX_REL_BYTES, MAX_TREE_DEPTH,
};

fn some(s: &str) -> Option<String> {
    Some(s.to_string())
}

fn parts(v: &[&str]) -> Option<Vec<String>> {
    Some(v.iter().map(|s| s.to_string()).collect())
}

/// A directory tree that exists only as a list of paths.
struct Disk(RefCell<Vec<(String, Vec<String>)>>);

impl Disk {
    fn new() -> Disk {
        Disk(RefCell::new(Vec::new()))
    }

    fn write(&self, at: &Location) {
        self.0.borrow_mut().push((at.base.clone(), at.parts.clone()));
    }

    fn holds(&self, at: &Location) -> bool {
        self.0.borrow().iter().any(|(b, p)| *b == at.base && *p == at.parts)
    }
}

fn same(a: &Location, b: &Location) -> bool {
    a.base == b.base && a.parts == b.parts
}

#[test]
fn sanitize_rejects_windows_reserved_names() {
    assert_eq!(sanitize_name("NUL"), Some("_NUL".into()));
    assert_eq!(sanitize_name("nul.txt"), Some("_nul.txt".into()));
    assert_eq!(sanitize_name("COM1"), Some("_COM1".into()));
    assert_eq!(sanitize_name("LPT9.pdf"), Some("_LPT9.pdf".into()));
    assert_eq!(sanitize_name("CON"), Some("_CON".into()));
    // not reserved: COM0, a longer name, a normal file
    assert_eq!(sanitize_name("COM0"), Some("COM0".into()));
    assert_eq!(sanitize_name("communicate.txt"), Some("communicate.txt".into()));
    assert_eq!(sanitize_name("report.pdf"), Some("report.pdf".into()));
}

#[test]
fn sanitize_rejects_traversal() {
    assert_eq!(sanitize_name(".."), None);
    assert_eq!(sanitize_name("../../etc/passwd"), Some("passwd".into()));
    assert_eq!(sanitize_name("/etc/passwd"), Some("passwd".into()));
    // both separators are stripped on every OS, so a windows-style
    // path reduces to its basename regardless of receiver platform
    assert_eq!(sanitize_name("C:\\Windows\\evil.exe"), Some("evil.exe".into()));
    assert_eq!(sanitize_name("..\\..\\secret"), Some("secret".into()));
    assert_eq!(sanitize_name("report.pdf"), Some("report.pdf".into()));
    assert_eq!(sanitize_name("...."), None);
    assert_eq!(sanitize_name(""), None);
    assert_eq!(sanitize_name("a\x00b.txt"), Some("a_b.txt".into()));
}

#[test]
fn rel_paths_are_confined_to_the_root() {
    assert_eq!(sanitize_rel_path("sub/dir/file.txt"), parts(&["sub", "dir", "file.txt"]));
    // backslashes are separators no matter which OS sent them
    assert_eq!(sanitize_rel_path("sub\\file.txt"), parts(&["sub", "file.txt"]));
    for hostile in [
        "../evil",
        "sub/../../evil",
        "/etc/passwd",
        "..",
        ".",
        "sub/./x",
        "",
        "a//b",
        "a/",
        "/a",
    ] {
        assert!(sanitize_rel_path(hostile).is_none(), "{hostile:?} must be refused");
    }
    // a drive prefix is not an escape once the colon is neutralised
    assert_eq!(sanitize_rel_path("C:\\Windows\\evil.exe"), parts(&["C_", "Windows", "evil.exe"]));
    // reserved device names are neutralised per component
    assert_eq!(sanitize_rel_path("logs/nul.txt"), parts(&["logs", "_nul.txt"]));
    // depth bound
    let deep = vec!["d"; MAX_TREE_DEPTH + 1].join("/");
    assert!(sanitize_rel_path(&deep).is_none());
    let ok = vec!["d"; MAX_TREE_DEPTH].join("/");
    assert!(sanitize_rel_path(&ok).is_some());
}

#[test]
fn rel_paths_have_a_length_bound() {
    let long = vec!["d".repeat(100); 40].join("/");
    assert!(long.len() <= MAX_REL_BYTES);
    assert!(sanitize_rel_path(&long).is_some());
    let longer = "d".repeat(MAX_REL_BYTES + 1);
    assert!(sanitize_rel_path(&longer).is_none());
    // the bound is on bytes, not on characters
    let wide = "é".repeat(MAX_REL_BYTES / 2 + 1);
    assert!(sanitize_rel_path(&wide).is_none());
}

#[test]
fn sanitizing_keeps_safe_names() {
    for name in ["a.txt", "no extension", "deep.dotted.name", "Ünïcode"] {
        assert_eq!(sanitize_name(name), some(name));
    }
    assert_eq!(sanitize_name("a<b>c:d\"e|f?g*h"), some("a_b_c_d_e_f_g_h"));
    // twice is the same as once
    for name in ["NUL", "a:b", "  spaced  ", "trailing. . ", "../x"] {
        let once = sanitize_name(name).unwrap();
        assert_eq!(sanitize_name(&once), Some(once.clone()));
    }
}

#[test]
fn unique_path_suffixes() {
    let disk = Disk::new();
    let dir = Location::new("/tmp/vylo-test");
    let first = unique_path(&dir, "a.txt", |p| disk.holds(p)).unwrap();
    assert!(same(&first, &dir.join("a.txt")));
    disk.write(&first);
    let second = unique_path(&dir, "a.txt", |p| disk.holds(p)).unwrap();
    assert!(same(&second, &dir.join("a (1).txt")));
    disk.write(&second);
    let third = unique_path(&dir, "a.txt", |p| disk.holds(p)).unwrap();
    assert!(same(&third, &dir.join("a (2).txt")));
}

#[test]
fn unique_path_without_extension() {
    let disk = Disk::new();
    let dir = Location::new("/tmp");
    disk.write(&dir.join("Makefile"));
    let p = unique_path(&dir, "Makefile", |p| disk.holds(p)).unwrap();
    assert_eq!(p.parts, vec!["Makefile (1)".to_string()]);
    disk.write(&dir.join(".profile"));
    let p = unique_path(&dir, ".profile", |p| disk.holds(p)).unwrap();
    assert_eq!(p.parts, vec![".profile (1)".to_string()]);
}

#[test]
fn unique_dir_path_does_not_treat_dots_as_extensions() {
    let disk = Disk::new();
    let tmp = Location::new("/tmp/vylo-udp");
    disk.write(&tmp.join("my.photos"));
    let p = unique_dir_path(&tmp, "my.photos", |p| disk.holds(p)).unwrap();
    assert!(same(&p, &tmp.join("my.photos (1)")));
    let p = unique_dir_path(&tmp, "fresh", |p| disk.holds(p)).unwrap();
    assert!(same(&p, &tmp.join("fresh")));
}

#[test]
fn part_files_avoid_names_that_are_taken() {
    let disk = Disk::new();
    let tmp = Location::new("/tmp/vylo-part");
    // a real file that looks like our temp name is already there
    disk.write(&tmp.join("x.txt.vylopart"));
    let (target, part) = receive_paths(&tmp, "x.txt", |p| disk.holds(p)).unwrap();
    assert!(!same(&part, &tmp.join("x.txt.vylopart")));
    assert!(!disk.holds(&part));
    assert!(!disk.holds(&target));
}

#[test]
fn receive_paths_of_a_fresh_file() {
    let tmp = Location::new("/tmp");
    let (target, part) = receive_paths(&tmp, "x.txt", |_| false).unwrap();
    assert!(same(&target, &tmp.join("x.txt")));
    assert!(same(&part, &tmp.join("x.txt.vylopart")));
}

#[test]
fn staging_names_are_recognized() {
    assert_eq!(tree_staging_name(7), ".vylo-tree-7");
    assert_eq!(drag_staging_name(u64::MAX), ".vylo-drag-18446744073709551615");
    assert!(is_stale_staging(&tree_staging_name(0)));
    assert!(is_stale_staging(&drag_staging_name(0)));
    assert!(!is_stale_staging("vylo-tree-1"));
    assert!(!is_stale_staging(".vylo"));
}

#[test]
fn locations_follow_names() {
    let names = vec!["a".to_string(), "b".to_string(), "c".to_string()];
    let at = Location::new("/base").follow(&names, 2);
    assert_eq!(at.base, "/base");
    assert_eq!(at.parts, vec!["a".to_string(), "b".to_string()]);
    assert!(Location::nowhere().is_nowhere());
    assert!(!at.is_nowhere());
    assert!(same(&at, &at.copied()));
}
