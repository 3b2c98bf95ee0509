use cosmic_ext_applet_now_playing::path::paths_equal;

fn same(a: &str, b: &str) -> bool {
    paths_equal(&a.as_bytes().to_vec(), &b.as_bytes().to_vec())
}

#[test]
fn paths_compare_by_components() {
    assert!(same("/a/b", "/a/b"));
    assert!(same("/a/b", "/a//b"));
    assert!(same("/a/b", "/a/b/"));
    assert!(same("/a/b", "/a/./b"));
    assert!(same("/a/b/.", "/a/b"));
    assert!(same("/", "/."));
    assert!(same("./a", "./a/"));
    assert!(same(".", "./"));
    assert!(same("", ""));
    assert!(!same("/a/b", "a/b"));
    assert!(!same("./a", "a"));
    assert!(!same("/a/b", "/a/c"));
    assert!(!same("/a/b", "/a/b/c"));
    assert!(!same("/a/../b", "/b"));
    assert!(!same("/a/.b", "/a/b"));
    assert!(!same("", "."));
}
