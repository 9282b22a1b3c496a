//! What the engine decides between reading a record and writing it back.
//!
//! The store keeps one record per user and document under a key made of the
//! two names. Each function here takes what was read from the store and
//! gives what is to be written; none of them touches the store itself.

use vstd::prelude::*;
use vstd::string::StringExecFns;

use crate::error::AppError;
use crate::merge::{is_deleted, merge_annotations, merged};
use crate::models::{
    Annotation, AnnotationView, DocumentAnnotations, DocumentView, Progress, ProgressView,
};
use crate::text::same_text;

verus! {

broadcast use vstd::std_specs::vec::group_vec_axioms;

/// The key of the record of `username` for `document`: the two names with a
/// colon between them.
pub open spec fn record_key(username: Seq<char>, document: Seq<char>) -> Seq<char> {
    username + seq![':'] + document
}

fn join_key(username: &str, document: &str) -> (key: String)
    ensures
        key@ == record_key(username@, document@),
{
    let mut key = String::from_str(username);
    key.append(":");
    key.append(document);
    proof {
        reveal_strlit(":");
        assert(":"@ =~= seq![':']);
    }
    key
}

/// The key under which the reading position is stored.
pub fn progress_key(username: &str, document: &str) -> (key: String)
    ensures
        key@ == record_key(username@, document@),
{
    join_key(username, document)
}

/// The key under which the annotations are stored.
pub fn annotations_key(username: &str, document: &str) -> (key: String)
    ensures
        key@ == record_key(username@, document@),
{
    join_key(username, document)
}

/// What registering a user writes: the password hash where the name is free,
/// nothing where `stored` shows that it is taken. The user was created
/// exactly when something is written.
pub fn create_user(stored: Option<&str>, password_hash: &str) -> (entry: Option<String>)
    ensures
        stored is Some ==> entry is None,
        stored is None ==> entry.deep_view() == Some(password_hash@),
{
    match stored {
        Some(_) => None,
        None => Some(String::from_str(password_hash)),
    }
}

/// Whether `password_hash` is the one stored for the user; `stored` is
/// `None` where the user is unknown.
pub fn verify_user(stored: Option<&str>, password_hash: &str) -> (ok: bool)
    ensures
        ok == (stored.deep_view() == Some(password_hash@)),
{
    match stored {
        Some(hash) => same_text(hash, password_hash),
        None => false,
    }
}

/// What a read of a progress record gives: the record where one is stored,
/// else the record with every field absent.
pub open spec fn read_progress(stored: Option<ProgressView>) -> ProgressView {
    match stored {
        Some(record) => record,
        None => ProgressView::absent(),
    }
}

/// What the store holds after `record` was written over `stored`: the new
/// record alone.
pub open spec fn write_progress(
    stored: Option<ProgressView>,
    record: ProgressView,
) -> Option<ProgressView> {
    Some(record)
}

/// The record that an upload of a reading position leaves.
pub open spec fn progress_record(
    document: Seq<char>,
    progress: Seq<char>,
    percentage: u64,
    device: Seq<char>,
    device_id: Option<Seq<char>>,
    timestamp: i64,
) -> ProgressView {
    ProgressView {
        document: Some(document),
        progress: Some(progress),
        percentage: Some(percentage),
        device: Some(device),
        device_id,
        timestamp: Some(timestamp),
    }
}

/// The reading position to answer with, given what the store holds.
pub fn get_progress(stored: Option<Progress>) -> (record: Progress)
    ensures
        record@ == read_progress(stored.deep_view()),
        stored matches Some(held) ==> record == held,
{
    match stored {
        Some(held) => held,
        None => Progress::default(),
    }
}

/// The record to store for an upload of a reading position at `timestamp`.
/// It is made of the upload alone: nothing of an earlier record stays.
pub fn set_progress(
    document: &str,
    progress: &str,
    percentage: u64,
    device: &str,
    device_id: Option<&str>,
    timestamp: i64,
) -> (record: Progress)
    ensures
        record@ == progress_record(
            document@,
            progress@,
            percentage,
            device@,
            device_id.deep_view(),
            timestamp,
        ),
{
    Progress {
        document: Some(String::from_str(document)),
        progress: Some(String::from_str(progress)),
        percentage: Some(percentage),
        device: Some(String::from_str(device)),
        device_id: match device_id {
            Some(id) => Some(String::from_str(id)),
            None => None,
        },
        timestamp: Some(timestamp),
    }
}

/// What a read of an annotation record gives: the record where one is
/// stored, else the empty record at version 0.
pub open spec fn read_annotations(stored: Option<DocumentView>) -> DocumentView {
    match stored {
        Some(record) => record,
        None => DocumentView::absent(),
    }
}

/// The annotations to answer with, given what the store holds.
pub fn get_annotations(stored: Option<DocumentAnnotations>) -> (record: DocumentAnnotations)
    ensures
        record@ == read_annotations(stored.deep_view()),
        stored matches Some(held) ==> record == held,
{
    match stored {
        Some(held) => held,
        None => DocumentAnnotations::default(),
    }
}

/// Whether an upload made against `base_version` comes too late for a record
/// at `current_version`. A record that was never written accepts any upload,
/// and so does an upload that names no version.
pub open spec fn is_stale(current_version: nat, base_version: Option<u64>) -> bool {
    base_version matches Some(base) && current_version > 0 && base != current_version
}

/// `held` followed by those of `added` that it lacks, each once, in the
/// order in which they come.
pub open spec fn union_deleted(held: Seq<Seq<char>>, added: Seq<Seq<char>>) -> Seq<Seq<char>>
    decreases added.len(),
{
    if added.len() == 0 {
        held
    } else {
        let before = union_deleted(held, added.drop_last());
        if before.contains(added.last()) {
            before
        } else {
            before.push(added.last())
        }
    }
}

/// The record that an accepted upload leaves.
pub open spec fn updated(
    current: DocumentView,
    annotations: Seq<AnnotationView>,
    deleted: Seq<Seq<char>>,
    timestamp: int,
) -> DocumentView {
    DocumentView {
        version: current.version + 1,
        annotations: merged(current.annotations, annotations, current.deleted, deleted),
        deleted: union_deleted(current.deleted, deleted),
        updated_at: timestamp,
    }
}

/// Checks an upload made against `base_version` with the version of the
/// stored record.
pub fn check_version(current_version: u64, base_version: Option<u64>) -> (r: Result<(), AppError>)
    ensures
        match r {
            Ok(_) => !is_stale(current_version as nat, base_version),
            Err(e) => is_stale(current_version as nat, base_version) && e is VersionConflict,
        },
{
    if let Some(base) = base_version {
        if base != current_version && current_version > 0 {
            return Err(AppError::VersionConflict);
        }
    }
    Ok(())
}

/// Adds to `held` the tombstones of `added` that it lacks.
pub fn merge_deleted(held: Vec<String>, added: Vec<String>) -> (all: Vec<String>)
    ensures
        all.deep_view() == union_deleted(held.deep_view(), added.deep_view()),
{
    let ghost names = added.deep_view();
    let ghost items = added@;
    let mut all = held;
    assert(names.take(0) =~= Seq::empty());
    for d in it: added
        invariant
            it.seq() == items,
            names.len() == items.len(),
            forall|i: int| 0 <= i < names.len() ==> names[i] == (#[trigger] items[i])@,
            all.deep_view() == union_deleted(held.deep_view(), names.take(it.index())),
    {
        proof {
            let n = it.index();
            assert(names.take(n + 1).drop_last() =~= names.take(n));
            assert(names.take(n + 1).last() == d@);
        }
        if !is_deleted(all.as_slice(), d.as_str()) {
            let ghost before = all.deep_view();
            all.push(d);
            assert(all.deep_view() =~= before.push(d@));
        }
    }
    assert(names.take(names.len() as int) =~= names);
    all
}

/// Applies an upload of annotations to the record `current`.
///
/// The upload is refused where it names a version other than that of a
/// record that was written before, and `current` is then left as it was.
/// Otherwise the uploaded annotations are merged into the stored ones, the
/// uploaded tombstones are added to the stored ones, the version goes up by
/// one and `timestamp` is recorded; the new version and `timestamp` are
/// returned.
///
/// A record at the last version that a `u64` can hold takes no further
/// upload.
pub fn update_annotations(
    current: &mut DocumentAnnotations,
    new_annotations: Vec<Annotation>,
    new_deleted: Vec<String>,
    base_version: Option<u64>,
    timestamp: i64,
) -> (r: Result<(u64, i64), AppError>)
    requires
        is_stale(old(current)@.version, base_version) || old(current).version < u64::MAX,
    ensures
        match r {
            Ok((version, stamp)) => {
                &&& !is_stale(old(current)@.version, base_version)
                &&& final(current)@ == updated(
                    old(current)@,
                    new_annotations.deep_view(),
                    new_deleted.deep_view(),
                    timestamp as int,
                )
                &&& version == final(current).version
                &&& stamp == timestamp
            },
            Err(e) => {
                &&& is_stale(old(current)@.version, base_version)
                &&& e is VersionConflict
                &&& *final(current) == *old(current)
            },
        },
{
    if let Err(conflict) = check_version(current.version, base_version) {
        return Err(conflict);
    }
    let mut server: Vec<Annotation> = Vec::new();
    core::mem::swap(&mut current.annotations, &mut server);
    let annotations = merge_annotations(
        server,
        new_annotations,
        current.deleted.as_slice(),
        new_deleted.as_slice(),
    );
    let mut held: Vec<String> = Vec::new();
    core::mem::swap(&mut current.deleted, &mut held);
    let deleted = merge_deleted(held, new_deleted);

    current.version = current.version + 1;
    current.annotations = annotations;
    current.deleted = deleted;
    current.updated_at = timestamp;
    Ok((current.version, timestamp))
}

} // verus!
