use file_cloud::index_job::{
    index_record, mime_format, pdf_info_text, try_parse_sync, ContentKind, JobStatus, WalkBatch, BATCH_LIMIT,
    MAX_CONTENT_SIZE,
};
use file_cloud::search::{name_like_pattern, paths_delete_query, stale_docs_query, SEARCH_LIMIT};
use file_cloud::stat::FileStat;

#[test]
fn busy_walk_is_not_started_again() {
    let mut s = JobStatus::new();
    assert!(s.start());
    assert_eq!(s, JobStatus::Running(0));
    s.record_flush(26);
    assert!(!s.start());
    assert_eq!(s, JobStatus::Running(26));
    s.record_flush(3);
    assert_eq!(s, JobStatus::Running(29));
}

#[test]
fn error_is_left_by_a_new_walk() {
    let mut s = JobStatus::new();
    s.start();
    s.fail("disk gone".to_string());
    assert_eq!(s, JobStatus::Error("disk gone".to_string()));
    s.record_flush(5);
    assert_eq!(s, JobStatus::Error("disk gone".to_string()));
    assert!(s.start());
    assert_eq!(s, JobStatus::Running(0));
    s.finish();
    assert_eq!(s, JobStatus::Idle);
}

#[test]
fn flush_count_saturates() {
    let mut s = JobStatus::Running(u64::MAX - 1);
    s.record_flush(5);
    assert_eq!(s, JobStatus::Running(u64::MAX));
}

#[test]
fn walk_batch_flushes_after_limit() {
    let mut b = WalkBatch::new();
    for i in 0..BATCH_LIMIT {
        assert!(b.push(format!("f{i}")).is_none());
    }
    let out = b.push("last".to_string()).unwrap();
    assert_eq!(out.len(), BATCH_LIMIT + 1);
    assert_eq!(out[0], "f0");
    assert_eq!(out[BATCH_LIMIT], "last");
    assert!(b.take_rest().is_none());
    b.push("x".to_string());
    assert_eq!(b.take_rest().unwrap(), vec!["x".to_string()]);
}

#[test]
fn content_extraction_choice() {
    assert_eq!(try_parse_sync("text/plain", 10), Some(ContentKind::Text));
    assert_eq!(try_parse_sync("application/pdf", 10), Some(ContentKind::Pdf));
    assert_eq!(try_parse_sync("image/png", 10), None);
    assert_eq!(try_parse_sync("text/plain", MAX_CONTENT_SIZE), Some(ContentKind::Text));
    assert_eq!(try_parse_sync("text/plain", MAX_CONTENT_SIZE + 1), None);
    assert_eq!(try_parse_sync("", 0), None);
}

#[test]
fn format_joins_guessed_types() {
    assert_eq!(mime_format("/d/a.txt"), "text/plain");
    assert_eq!(mime_format("notes.md"), "text/markdown|text/x-markdown");
    assert_eq!(mime_format("/d/noext"), "");
}

#[test]
fn record_of_walked_file() {
    let st = FileStat {
        is_dir: false,
        is_file: true,
        file_type: String::new(),
        size: 42,
        created: 1,
        modified: 2,
        accessed: 3,
    };
    let r = index_record("/data", "alice/doc.pdf", &st, "alice", 1700000000000);
    assert_eq!(r.file_name, "doc.pdf");
    assert_eq!(r.file_path, "alice/doc.pdf");
    assert_eq!(r.username, "alice");
    assert_eq!(r.format, "application/pdf");
    assert_eq!(r.size, 42);
    assert_eq!(r.created_at, 1);
    assert_eq!(r.modified_at, 2);
    assert!(!r.is_dir);
    assert_eq!(r.updated_at, 1700000000000);
}

#[test]
fn record_of_walk_root_names_the_root() {
    let st = FileStat {
        is_dir: true,
        is_file: false,
        file_type: String::new(),
        size: 0,
        created: 0,
        modified: 0,
        accessed: 0,
    };
    let r = index_record("/data/files", "", &st, "", 5);
    assert_eq!(r.file_name, "files");
    assert!(r.is_dir);
}

#[test]
fn stale_query_names_the_generation() {
    assert_eq!(stale_docs_query(1700000000123), "updated_at:[0 TO 1700000000123}");
    assert_eq!(stale_docs_query(0), "updated_at:[0 TO 0}");
}

#[test]
fn delete_query_lists_each_path() {
    assert_eq!(paths_delete_query(&vec!["a/x.txt".to_string()]), "\"a/x.txt\"");
    assert_eq!(
        paths_delete_query(&vec!["a".to_string(), "b".to_string()]),
        "\"a\" OR \"b\""
    );
    assert_eq!(paths_delete_query(&vec![]), "");
    assert_eq!(SEARCH_LIMIT, 10);
}

#[test]
fn reconciled_walk_keeps_found_paths() {
    // the rows a walk writes, then prunes to its own generation
    let mut rows: Vec<(String, u64)> = vec![("a".into(), 1), ("b".into(), 1), ("c".into(), 1)];
    let now = 2;
    let mut b = WalkBatch::new();
    let mut flushed = Vec::new();
    for p in ["a", "c"] {
        if let Some(batch) = b.push(p.to_string()) {
            flushed.extend(batch);
        }
    }
    flushed.extend(b.take_rest().unwrap());
    rows.extend(flushed.into_iter().map(|p| (p, now)));
    rows.retain(|r| r.1 == now);
    let paths: Vec<String> = rows.into_iter().map(|r| r.0).collect();
    assert_eq!(paths, vec!["a".to_string(), "c".to_string()]);
}

#[test]
fn name_search_pattern() {
    assert_eq!(name_like_pattern("report"), "%report%");
    assert_eq!(name_like_pattern(""), "%%");
}

#[test]
fn pdf_info_keeps_text_values() {
    let fields = vec![
        ("/Author".to_string(), Some("Ann".to_string())),
        ("/Pages".to_string(), None),
        ("/Title".to_string(), Some("Notes".to_string())),
    ];
    assert_eq!(pdf_info_text(&fields), "/Author: Ann/Title: Notes");
    assert_eq!(pdf_info_text(&vec![]), "");
}
