use greentic_deployer::errors::BootstrapError;
use greentic_deployer::paths::normalize_under_root;

#[test]
fn rejects_absolute_path() {
    let err = normalize_under_root("/srv/out", "/etc/passwd", "/etc/passwd")
        .expect_err("absolute candidates are refused before any lookup");
    assert!(err.message().contains("absolute paths are not allowed"));
}

#[test]
fn rejects_path_traversal() {
    let err = normalize_under_root("/srv/out", "../secrets", "/srv/secrets")
        .expect_err("a canonical path outside the root is refused");
    assert!(err.message().contains("path escapes root"));
    // A sibling directory sharing the root's text as a prefix is not under it.
    let err = normalize_under_root("/srv/out", "x", "/srv/outside/x")
        .expect_err("component boundaries count");
    assert!(err.message().contains("path escapes root"));
}

#[test]
fn accepts_paths_under_the_root() {
    let ok = normalize_under_root("/srv/out", "a/b.txt", "/srv/out/a/b.txt").expect("contained");
    assert_eq!(ok, "/srv/out/a/b.txt");
    let root_itself = normalize_under_root("/srv/out", ".", "/srv/out").expect("the root itself");
    assert_eq!(root_itself, "/srv/out");
    assert!(matches!(
        normalize_under_root("/srv/out", "/abs", "/srv/out/abs"),
        Err(BootstrapError::Config(_))
    ));
}
