use file_cloud::error::AppError;
use file_cloud::path::{join, normailze_path, rel_join, secure_join, secure_join_strict, strict_join_target};

#[test]
fn secure_join_accepts_plain_relative_paths() {
    assert_eq!(secure_join("a", "b").unwrap(), "a/b");
    assert_eq!(secure_join("a/", "b/c.txt").unwrap(), "a/b/c.txt");
    assert_eq!(secure_join("", "b").unwrap(), "b");
    assert_eq!(secure_join("a", "x..y/z").unwrap(), "a/x..y/z");
    assert_eq!(secure_join("a", "./b").unwrap(), "a/./b");
}

#[test]
fn secure_join_refuses_parent_components() {
    assert_eq!(secure_join("a", "../b"), Err(AppError::PathSecurity));
    assert_eq!(secure_join("a", "b/.."), Err(AppError::PathSecurity));
    assert_eq!(secure_join("a", "b/../c"), Err(AppError::PathSecurity));
    assert_eq!(secure_join("a", ".."), Err(AppError::PathSecurity));
}

#[test]
fn secure_join_refuses_absolute_paths() {
    assert_eq!(secure_join("a", "/etc/passwd"), Err(AppError::PathSecurity));
    assert_eq!(secure_join("a", "/"), Err(AppError::PathSecurity));
}

#[test]
fn join_follows_absolute_second_path() {
    assert_eq!(join("/data", "/other"), "/other");
    assert_eq!(join("/data", "alice"), "/data/alice");
    assert_eq!(join("/data", ""), "/data/");
}

#[test]
fn normalize_confines_below_owner_root() {
    assert_eq!(normailze_path("/data", "alice", "docs/a.txt").unwrap(), "/data/alice/docs/a.txt");
    assert_eq!(normailze_path("/data", "alice", "../bob/a.txt"), Err(AppError::PathSecurity));
    assert_eq!(normailze_path("/data", "alice", "/bob/a.txt"), Err(AppError::PathSecurity));
}

#[test]
fn rel_join_gives_owner_relative_path() {
    assert_eq!(rel_join("alice", "docs/a.txt").unwrap(), "alice/docs/a.txt");
    assert_eq!(rel_join("alice", "../a.txt"), Err(AppError::PathSecurity));
}

#[test]
fn strict_join_compares_depths() {
    assert_eq!(strict_join_target("/data", "a/b").unwrap(), "/data/a/b");
    assert_eq!(strict_join_target("/data", "/a"), Err(AppError::PathSecurity));
    assert_eq!(secure_join_strict("/data", "a/b", "/data/a/b", "/data").unwrap(), "/data/a/b");
    assert_eq!(secure_join_strict("/data", "link", "/", "/data"), Err(AppError::PathSecurity));
    assert_eq!(secure_join_strict("/data/x", "l", "/etc", "/data/x"), Err(AppError::PathSecurity));
    assert_eq!(secure_join_strict("/data", "a/..", "/data", "/data").unwrap(), "/data/a/..");
    assert_eq!(secure_join_strict("/data", "/a", "/a", "/data"), Err(AppError::PathSecurity));
}

#[test]
fn client_errors_are_distinct_from_server_errors() {
    assert!(AppError::PathSecurity.is_client_error());
    assert!(AppError::NotFound.is_client_error());
    assert!(!AppError::Io.is_client_error());
    assert!(!AppError::SearchIndex.is_client_error());
}
