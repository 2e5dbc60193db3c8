use std::cell::RefCell;
use std::collections::BTreeSet;
use std::rc::Rc;

use file_cloud::error::AppError;
use file_cloud::events::{EventEmitter, FSHookPayload, FSHookType};
use file_cloud::requests::{
    AppResponseStatus, DeleteFilesOfDirReq, EmptyResponseData, GetFilesOfDirReq, ReadImageReq,
    ReadVideoReq,
};
use file_cloud::stat::{FileStat, FileStatWithName};
use file_cloud::text::{contains, join_with, push_decimal};
use file_cloud::vfs::DeleteBatch;

fn run_batch(disk: &mut BTreeSet<String>, files: &[&str], attempts: &mut Vec<String>) -> (Vec<String>, Result<(), AppError>) {
    let mut batch = DeleteBatch::new("/data", "alice", files.iter().map(|s| s.to_string()).collect());
    while let Some(target) = batch.next_target() {
        let outcome = match target {
            Err(e) => Err(e),
            Ok(path) => {
                attempts.push(path.clone());
                if disk.remove(&path) { Ok(()) } else { Err(AppError::NotFound) }
            }
        };
        batch.record(outcome);
    }
    batch.finish()
}

#[test]
fn batch_delete_stops_at_missing_file() {
    let mut disk: BTreeSet<String> = ["/data/alice/x".to_string()].into_iter().collect();
    let mut attempts = Vec::new();
    let (removed, result) = run_batch(&mut disk, &["x", "y"], &mut attempts);
    assert_eq!(removed, vec!["alice/x".to_string()]);
    assert_eq!(result, Err(AppError::NotFound));
    assert_eq!(attempts, vec!["/data/alice/x".to_string(), "/data/alice/y".to_string()]);
    assert!(disk.is_empty());
}

#[test]
fn batch_delete_stops_at_unsafe_path() {
    let mut disk: BTreeSet<String> =
        ["/data/alice/x".to_string(), "/data/alice/z".to_string()].into_iter().collect();
    let mut attempts = Vec::new();
    let (removed, result) = run_batch(&mut disk, &["x", "../bob", "z"], &mut attempts);
    assert_eq!(removed, vec!["alice/x".to_string()]);
    assert_eq!(result, Err(AppError::PathSecurity));
    assert!(disk.contains("/data/alice/z"));
}

#[test]
fn batch_delete_of_all_present_files() {
    let mut disk: BTreeSet<String> =
        ["/data/alice/x".to_string(), "/data/alice/d/y".to_string()].into_iter().collect();
    let mut attempts = Vec::new();
    let (removed, result) = run_batch(&mut disk, &["x", "d/y"], &mut attempts);
    assert_eq!(removed, vec!["alice/x".to_string(), "alice/d/y".to_string()]);
    assert_eq!(result, Ok(()));
}

#[test]
fn handlers_run_in_registration_order() {
    let log: Rc<RefCell<Vec<String>>> = Rc::new(RefCell::new(Vec::new()));
    let mut bus: EventEmitter<Box<dyn Fn(FSHookPayload)>> = EventEmitter::new();
    let l1 = log.clone();
    bus.listen(FSHookType::AddFile, Box::new(move |p: FSHookPayload| l1.borrow_mut().push(format!("first {}", p.0.join(",")))));
    let l2 = log.clone();
    bus.listen(FSHookType::DeleteFile, Box::new(move |p: FSHookPayload| l2.borrow_mut().push(format!("delete {}", p.0.join(",")))));
    let l3 = log.clone();
    bus.listen(FSHookType::AddFile, Box::new(move |p: FSHookPayload| l3.borrow_mut().push(format!("second {}", p.0.join(",")))));
    let n = bus.emit(FSHookType::AddFile, &FSHookPayload(vec!["a".into(), "b".into()]));
    assert_eq!(n, 2);
    assert_eq!(*log.borrow(), vec!["first a,b".to_string(), "second a,b".to_string()]);
    assert_eq!(bus.listeners_of(FSHookType::DeleteFile).len(), 1);
    let n = bus.emit(FSHookType::DeleteFile, &FSHookPayload(vec!["c".into()]));
    assert_eq!(n, 1);
    assert_eq!(log.borrow().last().unwrap(), "delete c");
}

#[test]
fn emit_without_handlers_calls_none() {
    let bus: EventEmitter<Box<dyn Fn(FSHookPayload)>> = EventEmitter::new();
    assert_eq!(bus.emit(FSHookType::DeleteFile, &FSHookPayload(vec![])), 0);
}

#[test]
fn stat_with_name_copies_fields() {
    let st = FileStat {
        is_dir: false,
        is_file: true,
        file_type: "f".to_string(),
        size: 9,
        created: 1,
        modified: 2,
        accessed: 3,
    };
    let s = FileStatWithName::new(&st, "a.txt");
    assert_eq!(s.name, "a.txt");
    assert_eq!(s.file_type, "f");
    assert_eq!((s.is_dir, s.is_file, s.size, s.created, s.modified, s.accessed), (false, true, 9, 1, 2, 3));
}

#[test]
fn request_parameters() {
    assert_eq!(GetFilesOfDirReq { file: Some("a".into()) }.file().unwrap(), "a");
    assert_eq!(GetFilesOfDirReq { file: None }.file(), Err(AppError::MissingParameter));
    assert_eq!(DeleteFilesOfDirReq { files: None }.files(), Err(AppError::MissingParameter));
    assert_eq!(DeleteFilesOfDirReq { files: Some(vec!["x".into()]) }.files().unwrap(), vec!["x".to_string()]);
    assert_eq!(ReadImageReq { file: None, resize: Some(3) }.file(), Err(AppError::MissingParameter));
    let v = ReadVideoReq { file: Some("v.mp4".into()), resize: None, bitrate: Some(500) };
    assert_eq!(v.height(), 720);
    assert_eq!(v.bitrate(), 500);
    let v = ReadVideoReq { file: None, resize: Some(480), bitrate: None };
    assert_eq!(v.height(), 480);
    assert_eq!(v.bitrate(), 2000);
    assert!(AppError::MissingParameter.is_client_error());
}

#[test]
fn response_status_codes() {
    assert_eq!(AppResponseStatus::from_success(true).code(), 0);
    assert_eq!(AppResponseStatus::from_success(false).code(), 1);
    assert_eq!(EmptyResponseData::new(), EmptyResponseData {});
}

#[test]
fn text_helpers() {
    assert!(contains("text/plain", "text"));
    assert!(contains("abc", ""));
    assert!(!contains("te", "text"));
    assert!(contains("application/x-pdf", "pdf"));
    assert_eq!(join_with(&vec!["a".into(), "b".into(), "c".into()], "|"), "a|b|c");
    assert_eq!(join_with(&vec![], "|"), "");
    let mut s = String::from("n=");
    push_decimal(&mut s, 90210);
    assert_eq!(s, "n=90210");
    let mut s = String::new();
    push_decimal(&mut s, u64::MAX);
    assert_eq!(s, u64::MAX.to_string());
}
