use chronomap::files::validate_file_path;

#[test]
fn test_validate_file_path_accepts_absolute() {
    assert!(validate_file_path("/tmp/timeline.svg").is_ok());
    assert!(validate_file_path("/home/user/export.pdf").is_ok());
}

#[test]
fn test_validate_file_path_rejects_traversal() {
    let e = validate_file_path("/tmp/../etc/passwd").expect_err("traversal");
    assert!(e.is_validation());
    assert_eq!(e.message().as_str(), "Path traversal not allowed");
    // the traversal check wins even on a relative path
    let e = validate_file_path("../up").expect_err("traversal");
    assert_eq!(e.message().as_str(), "Path traversal not allowed");
}

#[test]
fn test_validate_file_path_rejects_relative() {
    let e = validate_file_path("relative/file.svg").expect_err("relative");
    assert!(e.is_validation());
    assert_eq!(e.message().as_str(), "Absolute path required");
    let e = validate_file_path("").expect_err("empty");
    assert_eq!(e.message().as_str(), "Absolute path required");
}
