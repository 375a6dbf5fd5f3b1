use gemlite::failure::{AskFailure, ErrorDetail};
use gemlite::files::{
    file_cache, finish_upload, get_or_upload_file, upload_all_files, ReadFile, UploadProgress,
    FILE_TTL,
};

fn file(path: &str, mime: &str) -> ReadFile {
    ReadFile {
        path: path.to_string(),
        data: vec![1],
        mime: mime.to_string(),
        size: 1,
        modified: 5,
    }
}

fn failure() -> AskFailure {
    AskFailure::Terminal(ErrorDetail {
        api_key: "...".to_string(),
        code: 0,
        status: "S".to_string(),
        message: "m".to_string(),
    })
}

#[test]
fn uploads_last_for_47_hours() {
    assert_eq!(FILE_TTL, 169_200_000_000_000);
    let mut cache = file_cache();
    let uri = || Ok("u".to_string());
    assert!(finish_upload(&mut cache, "k", "p", 1, 2, uri(), 1000).is_ok());
    for now in [0, 1000, 1000 + FILE_TTL - 1] {
        assert_eq!(get_or_upload_file(&cache, "k", "p", 1, 2, now), Some("u".to_string()));
    }
    for now in [1000 + FILE_TTL, u64::MAX] {
        assert_eq!(get_or_upload_file(&cache, "k", "p", 1, 2, now), None);
    }
}

#[test]
fn empty_cache_knows_nothing() {
    assert_eq!(get_or_upload_file(&file_cache(), "k", "p", 1, 2, 0), None);
}

#[test]
fn uploads_are_told_apart() {
    let mut cache = file_cache();
    let uri = || Ok("u".to_string());
    assert!(finish_upload(&mut cache, "k", "p", 1, 2, uri(), 0).is_ok());
    assert_eq!(get_or_upload_file(&cache, "k2", "p", 1, 2, 0), None);
    assert_eq!(get_or_upload_file(&cache, "k", "p2", 1, 2, 0), None);
    assert_eq!(get_or_upload_file(&cache, "k", "p", 9, 2, 0), None);
    assert_eq!(get_or_upload_file(&cache, "k", "p", 1, 9, 0), None);
    assert_eq!(get_or_upload_file(&cache, "k", "p", 1, 2, 0), Some("u".to_string()));
}

#[test]
fn newer_upload_replaces_the_older() {
    let mut cache = file_cache();
    let (old, new, other) =
        (|| Ok("old".to_string()), || Ok("new".to_string()), || Ok("other".to_string()));
    assert!(finish_upload(&mut cache, "k", "p", 1, 2, old(), 0).is_ok());
    assert!(finish_upload(&mut cache, "k", "q", 1, 2, other(), 0).is_ok());
    assert!(finish_upload(&mut cache, "k", "p", 1, 2, new(), 10).is_ok());
    assert_eq!(get_or_upload_file(&cache, "k", "p", 1, 2, 10), Some("new".to_string()));
    assert_eq!(get_or_upload_file(&cache, "k", "q", 1, 2, 10), Some("other".to_string()));
}

#[test]
fn stale_uploads_are_forgotten() {
    let mut cache = file_cache();
    let (old, new) = (|| Ok("old".to_string()), || Ok("new".to_string()));
    assert!(finish_upload(&mut cache, "k", "p", 1, 2, old(), 0).is_ok());
    assert!(finish_upload(&mut cache, "k", "q", 1, 2, new(), FILE_TTL).is_ok());
    assert_eq!(get_or_upload_file(&cache, "k", "p", 1, 2, 0), None);
    assert_eq!(get_or_upload_file(&cache, "k", "q", 1, 2, FILE_TTL), Some("new".to_string()));
}

#[test]
fn every_file_is_uploaded_in_order() {
    let files = vec![file("a", "image/png"), file("b", "text/plain")];
    let mut uploaded = Vec::new();
    assert_eq!(upload_all_files(&files, &mut uploaded, None), UploadProgress::Next(0));
    assert_eq!(
        upload_all_files(&files, &mut uploaded, Some(Ok("u1".to_string()))),
        UploadProgress::Next(1)
    );
    assert_eq!(
        upload_all_files(&files, &mut uploaded, Some(Ok("u2".to_string()))),
        UploadProgress::Complete
    );
    assert_eq!(
        uploaded,
        vec![
            ("u1".to_string(), "image/png".to_string()),
            ("u2".to_string(), "text/plain".to_string())
        ]
    );
}

#[test]
fn first_failure_ends_the_uploads() {
    let files = vec![file("a", "image/png"), file("b", "text/plain")];
    let mut uploaded = Vec::new();
    assert_eq!(
        upload_all_files(&files, &mut uploaded, Some(Err(failure()))),
        UploadProgress::Failed(failure())
    );
    assert!(uploaded.is_empty());
}

#[test]
fn no_files_need_no_upload() {
    let mut uploaded = Vec::new();
    assert_eq!(upload_all_files(&Vec::new(), &mut uploaded, None), UploadProgress::Complete);
}

#[test]
fn failed_upload_leaves_the_cache() {
    let mut cache = file_cache();
    assert_eq!(
        finish_upload(&mut cache, "k", "p", 1, 2, Ok("u".to_string()), 0),
        Ok("u".to_string())
    );
    assert_eq!(
        finish_upload(&mut cache, "k", "p", 1, 2, Err(failure()), FILE_TTL),
        Err(failure())
    );
    assert_eq!(
        finish_upload(&mut cache, "k", "q", 1, 2, Err(failure()), 0),
        Err(failure())
    );
    assert_eq!(get_or_upload_file(&cache, "k", "p", 1, 2, 0), Some("u".to_string()));
    assert_eq!(get_or_upload_file(&cache, "k", "q", 1, 2, 0), None);
}
