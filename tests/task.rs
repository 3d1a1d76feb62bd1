use asspp::error::AppError;
use asspp::store::{orphan_files, parse_account_hashes, require_account_hash, verify_ownership, TaskStore};
use asspp::task::{
    new_task, restore_task, transition, validate_create_request, CreateDownloadRequest, DownloadTask, PersistedTask, Sinf,
    Software, TaskEvent, TaskStatus,
};

fn software() -> Software {
    Software {
        name: "My App".into(),
        version: "1.0".into(),
        bundle_id: "com.x.y".into(),
        artwork_url: "https://example.com/a.png".into(),
    }
}

fn request(hash: &str) -> CreateDownloadRequest {
    CreateDownloadRequest {
        software: software(),
        account_hash: hash.into(),
        download_url: "https://example.com/app.ipa".into(),
        sinfs: vec![Sinf { id: 0, sinf: "aGVsbG8=".into() }],
        itunes_metadata: Some("PHBsaXN0Lz4=".into()),
    }
}

fn task(id: &str, hash: &str) -> DownloadTask {
    new_task(request(hash), id.into(), "2024-01-01T00:00:00Z".into())
}

#[test]
fn create_request_validation() {
    assert!(validate_create_request(&request("abcdefgh")).is_ok());
    let mut r = request("abcdefgh");
    r.download_url = "http://example.com/app.ipa".into();
    assert_eq!(validate_create_request(&r), Err(AppError::BadRequest("Invalid download URL".into())));
    let mut r = request("abcdefgh");
    r.software.name = String::new();
    r.software.bundle_id = String::new();
    assert_eq!(
        validate_create_request(&r),
        Err(AppError::MissingFields("software.name, software.bundleID".into()))
    );
    assert_eq!(
        validate_create_request(&request("short")),
        Err(AppError::BadRequest("Invalid accountHash".into()))
    );
}

#[test]
fn new_task_starts_queued() {
    let t = task("t1", "abcdefgh");
    assert_eq!(t.id, "t1");
    assert_eq!(t.status, TaskStatus::Queued);
    assert_eq!(t.progress, 0);
    assert_eq!(t.speed, "0 B/s");
    assert!(t.error.is_none());
    assert!(t.file_path.is_none());
    assert_eq!(t.sinfs.len(), 1);
}

#[test]
fn sanitized_projection_has_no_secrets() {
    let mut t = task("t1", "abcdefgh");
    t.file_path = Some("/data/packages/x.ipa".into());
    let s = t.sanitize(true);
    assert_eq!(s.id, "t1");
    assert_eq!(s.account_hash, "abcdefgh");
    assert_eq!(s.software.bundle_id, "com.x.y");
    assert_eq!(s.file_path.as_deref(), Some("/data/packages/x.ipa"));
    assert!(s.file_exists);
    assert!(!format!("{:?}", s).contains("example.com/app.ipa"));
    assert!(!format!("{:?}", s).contains("aGVsbG8="));
}

#[test]
fn lifecycle_transitions() {
    assert_eq!(transition(TaskStatus::Queued, TaskEvent::Start), Some(TaskStatus::Downloading));
    assert_eq!(transition(TaskStatus::Downloading, TaskEvent::Pause), Some(TaskStatus::Paused));
    assert_eq!(transition(TaskStatus::Paused, TaskEvent::Resume), Some(TaskStatus::Queued));
    assert_eq!(transition(TaskStatus::Downloading, TaskEvent::BytesDone { has_sinfs: true }), Some(TaskStatus::Injecting));
    assert_eq!(transition(TaskStatus::Downloading, TaskEvent::BytesDone { has_sinfs: false }), Some(TaskStatus::Completed));
    assert_eq!(transition(TaskStatus::Injecting, TaskEvent::Injected), Some(TaskStatus::Completed));
    assert_eq!(transition(TaskStatus::Completed, TaskEvent::Pause), None);
    assert_eq!(transition(TaskStatus::Paused, TaskEvent::Pause), None);
    assert_eq!(transition(TaskStatus::Injecting, TaskEvent::Fail), Some(TaskStatus::Failed));
    assert_eq!(TaskStatus::Completed.as_str(), "completed");
    assert_eq!(TaskStatus::from_name("paused"), Some(TaskStatus::Paused));
    assert_eq!(TaskStatus::from_name("bogus"), None);
}

#[test]
fn completion_strips_secrets() {
    let mut t = task("t1", "abcdefgh");
    assert!(t.begin_episode());
    assert_eq!(t.status, TaskStatus::Downloading);
    assert!(t.record_progress(40, "1.0 KB/s".into()));
    assert!(!t.finish_bytes());
    t.set_file_path("/data/packages/t1.ipa".into());
    assert!(t.finish_bytes());
    assert_eq!(t.status, TaskStatus::Injecting);
    assert_eq!(t.progress, 100);
    assert_eq!(t.sinfs.len(), 1);
    assert!(t.finish_injection());
    assert_eq!(t.status, TaskStatus::Completed);
    assert!(t.download_url.is_empty());
    assert!(t.sinfs.is_empty());
    assert!(t.itunes_metadata.is_none());
    let mut u = task("t2", "abcdefgh");
    u.sinfs.clear();
    assert!(u.begin_episode());
    u.set_file_path("/data/packages/t2.ipa".into());
    assert!(u.finish_bytes());
    assert_eq!(u.progress, 100);
    assert_eq!(u.status, TaskStatus::Completed);
    assert!(u.download_url.is_empty());
    let mut f = task("t3", "abcdefgh");
    f.fail();
    assert_eq!(f.status, TaskStatus::Failed);
    assert_eq!(f.error.as_deref(), Some("Download failed"));
}

#[test]
fn pause_and_resume_in_store() {
    let mut store = TaskStore::new();
    assert!(store.insert(task("t1", "abcdefgh")));
    assert!(!store.insert(task("t1", "abcdefgh")));
    assert!(!store.pause_task("t1"));
    assert!(!store.resume_task("t1"));
    let mut t = store.remove("t1").unwrap();
    assert!(t.begin_episode());
    assert!(store.insert(t));
    assert!(store.pause_task("t1"));
    assert_eq!(store.get("t1").unwrap().status, TaskStatus::Paused);
    assert!(!store.pause_task("t1"));
    assert!(store.resume_task("t1"));
    assert_eq!(store.get("t1").unwrap().status, TaskStatus::Queued);
    assert!(!store.pause_task("missing"));
    assert!(store.remove("t1").is_some());
    assert!(store.get("t1").is_none());
}

#[test]
fn ownership_isolation() {
    let mut store = TaskStore::new();
    assert!(store.insert(task("t1", "AAAAAAAA")));
    assert_eq!(store.authorize("t1", "BBBBBBBB"), Err(AppError::AccessDenied));
    assert_eq!(store.authorize("t1", "AAAAAAAA"), Ok(0));
    assert!(matches!(store.authorize("nope", "AAAAAAAA"), Err(AppError::NotFound(_))));
    assert!(matches!(store.authorize("t1", "AAAA"), Err(AppError::BadRequest(_))));
    let hashes = parse_account_hashes("BBBBBBBB,AAAAAAAA");
    assert_eq!(hashes, vec!["BBBBBBBB".to_string(), "AAAAAAAA".to_string()]);
    assert_eq!(store.owned_by(&hashes), vec![0]);
    assert!(store.owned_by(&parse_account_hashes("CCCCCCCC")).is_empty());
    assert_eq!(parse_account_hashes(",,a,,b,"), vec!["a".to_string(), "b".to_string()]);
    assert!(parse_account_hashes("").is_empty());
    assert!(require_account_hash("1234567").is_err());
    assert!(require_account_hash("12345678").is_ok());
    assert!(verify_ownership("AAAAAAAA", "AAAAAAAA").is_ok());
    assert_eq!(verify_ownership("AAAAAAAA", "aaaaaaaa"), Err(AppError::AccessDenied));
}

#[test]
fn persisted_records_are_completed_and_contained() {
    let mut store = TaskStore::new();
    let mut done = task("t1", "abcdefgh");
    done.begin_episode();
    done.set_file_path("/data/packages/abcdefgh/com.x.y/1.0/t1.ipa".into());
    done.finish_bytes();
    done.finish_injection();
    assert!(store.insert(done));
    let mut outside = task("t2", "abcdefgh");
    outside.sinfs.clear();
    outside.begin_episode();
    outside.set_file_path("/tmp/t2.ipa".into());
    outside.finish_bytes();
    assert!(store.insert(outside));
    assert!(store.insert(task("t3", "abcdefgh")));
    let recs = store.persisted_records("/data/packages");
    assert_eq!(recs.len(), 1);
    assert_eq!(recs[0].id, "t1");
    assert_eq!(recs[0].status, TaskStatus::Completed);
    assert_eq!(recs[0].file_path, "/data/packages/abcdefgh/com.x.y/1.0/t1.ipa");
    let t = store.get("t1").unwrap();
    assert!(t.to_persisted().is_some());
    assert!(store.get("t3").unwrap().to_persisted().is_none());
}

#[test]
fn restored_tasks_are_completed_without_secrets() {
    let p = PersistedTask {
        id: "t9".into(),
        software: software(),
        account_hash: "abcdefgh".into(),
        status: TaskStatus::Completed,
        progress: 40,
        speed: "9 MB/s".into(),
        error: None,
        file_path: "/data/packages/t9.ipa".into(),
        created_at: "now".into(),
    };
    let t = restore_task(p.clone()).unwrap();
    assert_eq!(t.status, TaskStatus::Completed);
    assert_eq!(t.progress, 100);
    assert_eq!(t.speed, "0 B/s");
    assert!(t.download_url.is_empty() && t.sinfs.is_empty() && t.itunes_metadata.is_none());
    let mut q = p.clone();
    q.status = TaskStatus::Failed;
    assert!(restore_task(q).is_none());
    let mut q = p;
    q.file_path = String::new();
    assert!(restore_task(q).is_none());
}

#[test]
fn orphan_sweep_deletes_exactly_unknown_files() {
    let files = vec!["/p/a/1.ipa".to_string(), "/p/b/2.ipa".to_string(), "/p/c/3.ipa".to_string()];
    let known = vec!["/p/b/2.ipa".to_string()];
    assert_eq!(orphan_files(&files, &known, "/p"), vec!["/p/a/1.ipa".to_string(), "/p/c/3.ipa".to_string()]);
    assert!(orphan_files(&files, &files, "/p").is_empty());
    assert_eq!(orphan_files(&files, &vec![], "/p"), files);
    let outside = vec!["/etc/passwd".to_string(), "/p/../etc/x".to_string(), "/p/d/4.ipa".to_string()];
    assert_eq!(orphan_files(&outside, &vec![], "/p"), vec!["/p/d/4.ipa".to_string()]);
}
