use kosync_server::db::{
    annotations_key, create_user, get_annotations, get_progress, merge_deleted, progress_key,
    set_progress, update_annotations, verify_user,
};
use kosync_server::error::AppError;
use kosync_server::models::{Annotation, DocumentAnnotations, Progress};

fn times(list: &[&str]) -> Vec<String> {
    list.iter().map(|t| t.to_string()).collect()
}

fn mark(datetime: &str, page: u64) -> Annotation {
    Annotation {
        datetime: datetime.to_string(),
        datetime_updated: None,
        drawer: None,
        color: None,
        text: None,
        text_edited: None,
        note: None,
        chapter: None,
        pageno: None,
        page: serde_json::Value::from(page).to_string(),
        pos0: None,
        pos1: None,
    }
}

#[test]
fn keys_join_user_and_document_with_a_colon() {
    assert_eq!(progress_key("testuser", "ffe18e5b"), "testuser:ffe18e5b");
    assert_eq!(annotations_key("testuser", "ffe18e5b"), "testuser:ffe18e5b");
    assert_eq!(annotations_key("", ""), ":");
    assert_eq!(progress_key("ü", "日本"), "ü:日本");
}

#[test]
fn keys_of_checked_names_do_not_collide() {
    let names = ["a", "b", "ab", "a b"];
    let mut keys = Vec::new();
    for user in names {
        for document in names {
            keys.push(annotations_key(user, document));
        }
    }
    for i in 0..keys.len() {
        for j in 0..keys.len() {
            assert_eq!(keys[i] == keys[j], i == j);
        }
    }
}

#[test]
fn create_user_writes_only_for_a_free_name() {
    assert_eq!(create_user(None, "hash"), Some("hash".to_string()));
    assert_eq!(create_user(Some("hash"), "hash"), None);
    assert_eq!(create_user(Some("other"), "hash"), None);
}

#[test]
fn verify_user_compares_the_stored_hash() {
    assert!(verify_user(Some("hash"), "hash"));
    assert!(!verify_user(Some("hash"), "hash2"));
    assert!(!verify_user(Some("hash"), ""));
    assert!(!verify_user(None, "hash"));
    assert!(!verify_user(None, ""));
}

#[test]
fn unwritten_progress_has_no_fields() {
    let record = get_progress(None);
    assert_eq!(
        record,
        Progress {
            document: None,
            progress: None,
            percentage: None,
            device: None,
            device_id: None,
            timestamp: None,
        }
    );
}

#[test]
fn set_progress_records_the_whole_upload() {
    let record =
        set_progress("doc", "/body/p[10]", 0.32f64.to_bits(), "TestDevice", None, 1700000000);
    assert_eq!(
        record,
        Progress {
            document: Some("doc".to_string()),
            progress: Some("/body/p[10]".to_string()),
            percentage: Some(0.32f64.to_bits()),
            device: Some("TestDevice".to_string()),
            device_id: None,
            timestamp: Some(1700000000),
        }
    );
    let record = set_progress("doc", "p", 0, "d", Some("dev-1"), -5);
    assert_eq!(record.device_id.as_deref(), Some("dev-1"));
    assert_eq!(record.timestamp, Some(-5));
    assert_eq!(get_progress(Some(record.clone())), record);
}

#[test]
fn unwritten_annotations_are_at_version_zero() {
    let record = get_annotations(None);
    assert_eq!(record.version, 0);
    assert!(record.annotations.is_empty());
    assert!(record.deleted.is_empty());
    assert_eq!(record.updated_at, 0);
    assert_eq!(record, DocumentAnnotations::default());
}

#[test]
fn merge_deleted_adds_each_new_tombstone_once() {
    assert_eq!(merge_deleted(vec![], vec![]), Vec::<String>::new());
    assert_eq!(merge_deleted(times(&["a", "b"]), vec![]), times(&["a", "b"]));
    assert_eq!(
        merge_deleted(times(&["a", "b"]), times(&["b", "c", "a", "c", "d"])),
        times(&["a", "b", "c", "d"])
    );
    assert_eq!(merge_deleted(vec![], times(&["x", "x"])), times(&["x"]));
    // Tombstones that are held twice stay held twice.
    assert_eq!(merge_deleted(times(&["a", "a"]), times(&["a"])), times(&["a", "a"]));
}

#[test]
fn first_upload_is_accepted_whatever_version_it_names() {
    for base_version in [None, Some(0), Some(1), Some(7), Some(u64::MAX)] {
        let mut record = get_annotations(None);
        let answer =
            update_annotations(&mut record, vec![mark("t1", 1)], vec![], base_version, 100)
                .unwrap();
        assert_eq!(answer, (1, 100));
        assert_eq!(
            record,
            DocumentAnnotations {
                version: 1,
                annotations: vec![mark("t1", 1)],
                deleted: vec![],
                updated_at: 100,
            }
        );
    }
}

#[test]
fn upload_against_the_current_version_is_accepted() {
    let mut record = DocumentAnnotations {
        version: 4,
        annotations: vec![mark("t1", 1)],
        deleted: times(&["t0"]),
        updated_at: 50,
    };
    let answer = update_annotations(
        &mut record,
        vec![mark("t2", 2), mark("t0", 3)],
        times(&["t1", "t9"]),
        Some(4),
        60,
    )
    .unwrap();
    assert_eq!(answer, (5, 60));
    assert_eq!(
        record,
        DocumentAnnotations {
            version: 5,
            annotations: vec![mark("t2", 2)],
            deleted: times(&["t0", "t1", "t9"]),
            updated_at: 60,
        }
    );
}

#[test]
fn upload_without_a_version_is_never_stale() {
    let mut record = DocumentAnnotations {
        version: 9,
        annotations: vec![],
        deleted: vec![],
        updated_at: 50,
    };
    assert_eq!(update_annotations(&mut record, vec![], vec![], None, 51).unwrap(), (10, 51));
    assert_eq!(record.version, 10);
}

#[test]
fn stale_upload_leaves_the_record_as_it_was() {
    let held = DocumentAnnotations {
        version: 4,
        annotations: vec![mark("t1", 1)],
        deleted: times(&["t0"]),
        updated_at: 50,
    };
    for base in [0, 3, 5, u64::MAX] {
        let mut record = held.clone();
        let refused =
            update_annotations(&mut record, vec![mark("t2", 2)], times(&["t1"]), Some(base), 60);
        assert!(matches!(refused, Err(AppError::VersionConflict)));
        assert_eq!(record, held);
    }
}

#[test]
fn upload_that_deletes_what_it_brings_still_stores_it() {
    // The tombstones of an upload are held against the stored annotations
    // only, so an annotation that arrives with its own tombstone is stored.
    let mut record = get_annotations(None);
    update_annotations(&mut record, vec![mark("t1", 1)], times(&["t1"]), None, 10).unwrap();
    assert_eq!(record.annotations, vec![mark("t1", 1)]);
    assert_eq!(record.deleted, times(&["t1"]));
    // The next upload of it meets the stored tombstone and is left out, but
    // the stored one goes only when an upload deletes it again.
    update_annotations(&mut record, vec![mark("t1", 1)], vec![], None, 11).unwrap();
    assert_eq!(record.annotations, vec![mark("t1", 1)]);
    update_annotations(&mut record, vec![], times(&["t1"]), None, 12).unwrap();
    assert_eq!(record.annotations, vec![]);
    assert_eq!(record.deleted, times(&["t1"]));
    assert_eq!(record.version, 3);
}

#[test]
fn version_just_below_the_limit_can_still_go_up() {
    let mut record = DocumentAnnotations {
        version: u64::MAX - 1,
        annotations: vec![],
        deleted: vec![],
        updated_at: 0,
    };
    let answer = update_annotations(&mut record, vec![], vec![], Some(u64::MAX - 1), 1).unwrap();
    assert_eq!(answer, (u64::MAX, 1));
}

#[test]
fn second_of_two_uploads_against_one_version_is_refused() {
    for start in [0u64, 1, 7] {
        let mut record = DocumentAnnotations {
            version: start,
            annotations: vec![],
            deleted: vec![],
            updated_at: 0,
        };
        let first = update_annotations(&mut record, vec![mark("t1", 1)], vec![], Some(start), 10);
        assert_eq!(first.unwrap(), (start + 1, 10));
        let second = update_annotations(&mut record, vec![mark("t2", 2)], vec![], Some(start), 11);
        assert!(matches!(second, Err(AppError::VersionConflict)));
        assert_eq!(record.annotations, vec![mark("t1", 1)]);
        assert_eq!(record.version, start + 1);
    }
}

#[test]
fn tombstones_only_grow() {
    let mut record = get_annotations(None);
    let mut seen: Vec<String> = Vec::new();
    for (i, deleted) in [times(&["a"]), times(&[]), times(&["b", "a"]), times(&["c"])]
        .into_iter()
        .enumerate()
    {
        update_annotations(&mut record, vec![], deleted, None, i as i64).unwrap();
        assert_eq!(&record.deleted[..seen.len()], &seen[..]);
        seen = record.deleted.clone();
    }
    assert_eq!(seen, times(&["a", "b", "c"]));
}
