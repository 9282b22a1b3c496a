//! What holds of every record, whatever uploads it went through.

use vstd::prelude::*;

use crate::db::{
    is_stale, read_annotations, read_progress, record_key, union_deleted, updated,
    write_progress,
};
use crate::handlers::is_key_part;
use crate::merge::merged;
use crate::merge_lemmas::{is_kept, is_taken, lemma_merged_distinct, lemma_merged_members};
use crate::models::{distinct_positions, AnnotationView, DocumentView, ProgressView};

verus! {

/// One upload of annotations, with the time at which it arrives.
pub struct Upload {
    pub annotations: Seq<AnnotationView>,
    pub deleted: Seq<Seq<char>>,
    pub base_version: Option<u64>,
    pub timestamp: int,
}

/// The record after `upload` arrived: unchanged where the upload is stale.
pub open spec fn after_upload(record: DocumentView, upload: Upload) -> DocumentView {
    if is_stale(record.version, upload.base_version) {
        record
    } else {
        updated(record, upload.annotations, upload.deleted, upload.timestamp)
    }
}

/// The record after `uploads` arrived one after the other.
pub open spec fn after_uploads(record: DocumentView, uploads: Seq<Upload>) -> DocumentView
    decreases uploads.len(),
{
    if uploads.len() == 0 {
        record
    } else {
        after_upload(after_uploads(record, uploads.drop_last()), uploads.last())
    }
}

/// How many of `uploads` were accepted.
pub open spec fn accepted(record: DocumentView, uploads: Seq<Upload>) -> nat
    decreases uploads.len(),
{
    if uploads.len() == 0 {
        0
    } else {
        let before = after_uploads(record, uploads.drop_last());
        let earlier = accepted(record, uploads.drop_last());
        if is_stale(before.version, uploads.last().base_version) {
            earlier
        } else {
            earlier + 1
        }
    }
}

/// The record of a user for a document is found under a key of its own:
/// two pairs of names give the same key only where they are the same pair,
/// as long as the user names hold no colon.
pub proof fn lemma_record_key_injective(
    user_a: Seq<char>,
    document_a: Seq<char>,
    user_b: Seq<char>,
    document_b: Seq<char>,
)
    requires
        !user_a.contains(':'),
        !user_b.contains(':'),
        record_key(user_a, document_a) == record_key(user_b, document_b),
    ensures
        user_a == user_b,
        document_a == document_b,
{
    let key_a = record_key(user_a, document_a);
    let key_b = record_key(user_b, document_b);
    assert(key_a[user_a.len() as int] == ':');
    assert(key_b[user_b.len() as int] == ':');
    if user_a.len() < user_b.len() {
        assert(key_b[user_a.len() as int] == user_b[user_a.len() as int]);
    }
    if user_b.len() < user_a.len() {
        assert(key_a[user_b.len() as int] == user_a[user_b.len() as int]);
    }
    assert forall|i: int| 0 <= i < user_a.len() implies user_a[i] == user_b[i] by {
        assert(key_a[i] == user_a[i]);
        assert(key_b[i] == user_b[i]);
    }
    assert(user_a =~= user_b);
    assert(document_a.len() == document_b.len()) by {
        assert(key_a.len() == user_a.len() + 1 + document_a.len());
        assert(key_b.len() == user_b.len() + 1 + document_b.len());
    }
    assert forall|i: int| 0 <= i < document_a.len() implies document_a[i] == document_b[i] by {
        assert(key_a[user_a.len() + 1 + i] == document_a[i]);
        assert(key_b[user_b.len() + 1 + i] == document_b[i]);
    }
    assert(document_a =~= document_b);
}

/// Names that pass as key parts give keys of their own.
pub proof fn lemma_checked_names_give_own_keys(
    user_a: Seq<char>,
    document_a: Seq<char>,
    user_b: Seq<char>,
    document_b: Seq<char>,
)
    requires
        is_key_part(user_a),
        is_key_part(user_b),
        user_a != user_b || document_a != document_b,
    ensures
        record_key(user_a, document_a) != record_key(user_b, document_b),
{
    if record_key(user_a, document_a) == record_key(user_b, document_b) {
        lemma_record_key_injective(user_a, document_a, user_b, document_b);
    }
}

/// A record that was never written reads as the empty one.
pub proof fn lemma_absent_reads_empty()
    ensures
        read_progress(None) == ProgressView::absent(),
        read_annotations(None) == DocumentView::absent(),
        read_annotations(None).version == 0,
        read_annotations(None).annotations.len() == 0,
        read_annotations(None).deleted.len() == 0,
        read_annotations(None).updated_at == 0,
{
}

/// The last write of a reading position is what is read: after two writes
/// the record is the second upload's, with nothing of the first.
pub proof fn lemma_progress_last_write_wins(
    stored: Option<ProgressView>,
    first: ProgressView,
    second: ProgressView,
)
    ensures
        read_progress(write_progress(write_progress(stored, first), second)) == second,
{
}

/// The first upload for a document is accepted whatever version it names.
pub proof fn lemma_first_upload_accepted(upload: Upload)
    ensures
        !is_stale(0, upload.base_version),
        after_upload(DocumentView::absent(), upload).version == 1,
{
}

/// An upload against another version than that of a written record changes
/// nothing.
pub proof fn lemma_stale_upload_changes_nothing(record: DocumentView, upload: Upload)
    requires
        record.version > 0,
        upload.base_version matches Some(base) && base != record.version,
    ensures
        is_stale(record.version, upload.base_version),
        after_upload(record, upload) == record,
{
}

/// No upload is lost to another: of two uploads made against the same
/// version of a record, the first is accepted and the second is then
/// refused, so that its device reads the record again.
pub proof fn lemma_second_of_two_is_refused(record: DocumentView, first: Upload, second: Upload)
    requires
        first.base_version matches Some(base) && base == record.version,
        second.base_version == first.base_version,
    ensures
        !is_stale(record.version, first.base_version),
        is_stale(after_upload(record, first).version, second.base_version),
        after_uploads(record, seq![first, second]) == after_upload(record, first),
{
    let one = seq![first];
    let both = seq![first, second];
    assert(one.drop_last() =~= Seq::<Upload>::empty());
    assert(both.drop_last() =~= one);
    assert(after_uploads(record, Seq::<Upload>::empty()) == record);
    assert(after_uploads(record, one) == after_upload(record, first));
}

/// An accepted upload raises the version by exactly one, and a refused one
/// leaves it.
pub proof fn lemma_version_steps_by_one(record: DocumentView, upload: Upload)
    ensures
        after_upload(record, upload).version == if is_stale(record.version, upload.base_version) {
            record.version
        } else {
            record.version + 1
        },
{
}

/// The version counts the accepted uploads: from a record that was never
/// written, the uploads that are accepted leave the versions 1, 2, 3 and so
/// on, none left out and none twice.
pub proof fn lemma_version_counts_accepted(record: DocumentView, uploads: Seq<Upload>)
    ensures
        after_uploads(record, uploads).version == record.version + accepted(record, uploads),
    decreases uploads.len(),
{
    if uploads.len() > 0 {
        lemma_version_counts_accepted(record, uploads.drop_last());
    }
}

/// The version never goes down, whatever arrives.
pub proof fn lemma_version_never_falls(record: DocumentView, uploads: Seq<Upload>)
    ensures
        after_uploads(record, uploads).version >= record.version,
{
    lemma_version_counts_accepted(record, uploads);
}

/// The tombstones only grow: those held stay, in their places, in front of
/// any that are added.
pub proof fn lemma_union_deleted_keeps(held: Seq<Seq<char>>, added: Seq<Seq<char>>)
    ensures
        held.len() <= union_deleted(held, added).len(),
        union_deleted(held, added).take(held.len() as int) == held,
    decreases added.len(),
{
    if added.len() > 0 {
        lemma_union_deleted_keeps(held, added.drop_last());
        let before = union_deleted(held, added.drop_last());
        assert(union_deleted(held, added).take(held.len() as int) =~= before.take(
            held.len() as int,
        ));
    } else {
        assert(held.take(held.len() as int) =~= held);
    }
}

/// The tombstones after an upload are those held and those uploaded, and no
/// others.
pub proof fn lemma_union_deleted_members(held: Seq<Seq<char>>, added: Seq<Seq<char>>)
    ensures
        forall|t: Seq<char>| #[trigger]
            union_deleted(held, added).contains(t) <==> held.contains(t) || added.contains(t),
    decreases added.len(),
{
    if added.len() > 0 {
        let front = added.drop_last();
        let before = union_deleted(held, front);
        let after = union_deleted(held, added);
        lemma_union_deleted_members(held, front);
        assert forall|t: Seq<char>| #[trigger]
            after.contains(t) <==> held.contains(t) || added.contains(t) by {
            if after.contains(t) {
                let i = choose|i: int| 0 <= i < after.len() && after[i] == t;
                if i < before.len() {
                    assert(before[i] == t);
                    assert(before.contains(t));
                    if front.contains(t) {
                        let j = choose|j: int| 0 <= j < front.len() && front[j] == t;
                        assert(added[j] == t);
                    }
                } else {
                    assert(added[added.len() - 1] == t);
                }
            }
            if held.contains(t) {
                assert(before.contains(t));
                let i = choose|i: int| 0 <= i < before.len() && before[i] == t;
                assert(after[i] == t);
            }
            if added.contains(t) {
                let j = choose|j: int| 0 <= j < added.len() && added[j] == t;
                if j < front.len() {
                    assert(front[j] == t);
                    assert(before.contains(t));
                    let i = choose|i: int| 0 <= i < before.len() && before[i] == t;
                    assert(after[i] == t);
                } else if before.contains(t) {
                    let i = choose|i: int| 0 <= i < before.len() && before[i] == t;
                    assert(after[i] == t);
                } else {
                    assert(after[before.len() as int] == t);
                }
            }
        }
    }
}

/// No tombstone is added twice: where those held are all different, so are
/// those after an upload.
pub proof fn lemma_union_deleted_distinct(held: Seq<Seq<char>>, added: Seq<Seq<char>>)
    requires
        held.no_duplicates(),
    ensures
        union_deleted(held, added).no_duplicates(),
    decreases added.len(),
{
    if added.len() > 0 {
        lemma_union_deleted_distinct(held, added.drop_last());
    }
}

/// The upload deletes none of the annotations that it brings.
pub open spec fn is_consistent(upload: Upload) -> bool {
    forall|i: int|
        0 <= i < upload.annotations.len() ==> !upload.deleted.contains(
            (#[trigger] upload.annotations[i]).datetime,
        )
}

/// Every upload leaves a record with one annotation per position, and with
/// each tombstone once where that held before.
pub proof fn lemma_updated_is_tidy(
    current: DocumentView,
    annotations: Seq<AnnotationView>,
    deleted: Seq<Seq<char>>,
    timestamp: int,
)
    ensures
        distinct_positions(updated(current, annotations, deleted, timestamp).annotations),
        current.deleted.no_duplicates() ==> updated(
            current,
            annotations,
            deleted,
            timestamp,
        ).is_tidy(),
{
    lemma_merged_distinct(current.annotations, annotations, current.deleted, deleted);
    if current.deleted.no_duplicates() {
        lemma_union_deleted_distinct(current.deleted, deleted);
    }
}

/// A deleted annotation stays out. Where no stored annotation carries a
/// tombstone, none does after an upload either, as long as the upload does
/// not delete what it brings itself.
pub proof fn lemma_updated_is_purged(
    current: DocumentView,
    annotations: Seq<AnnotationView>,
    deleted: Seq<Seq<char>>,
    timestamp: int,
)
    requires
        current.is_purged(),
        forall|i: int|
            0 <= i < annotations.len() ==> !deleted.contains((#[trigger] annotations[i]).datetime),
    ensures
        updated(current, annotations, deleted, timestamp).is_purged(),
{
    let after = updated(current, annotations, deleted, timestamp);
    lemma_merged_members(current.annotations, annotations, current.deleted, deleted);
    lemma_union_deleted_members(current.deleted, deleted);
    assert forall|i: int| 0 <= i < after.annotations.len() implies !after.deleted.contains(
        (#[trigger] after.annotations[i]).datetime,
    ) by {
        let a = after.annotations[i];
        assert(a == merged(current.annotations, annotations, current.deleted, deleted)[i]);
        if is_kept(current.annotations, deleted, a) {
            let stored = current.annotations;
            let j = choose|j: int| 0 <= j < stored.len() && stored[j] == a;
            assert(!current.deleted.contains(stored[j].datetime));
        } else {
            assert(is_taken(annotations, current.deleted, a));
            let j = choose|j: int| 0 <= j < annotations.len() && annotations[j] == a;
            assert(!deleted.contains(annotations[j].datetime));
        }
        assert(after.deleted.contains(a.datetime) <==> current.deleted.contains(a.datetime)
            || deleted.contains(a.datetime));
    }
}

/// Whatever uploads a document went through since it was first written, its
/// record holds one annotation per position and each tombstone once; and no
/// annotation of it carries a tombstone, as long as no upload deleted what
/// it brought itself.
pub proof fn lemma_every_record_is_tidy(uploads: Seq<Upload>)
    ensures
        after_uploads(DocumentView::absent(), uploads).is_tidy(),
        (forall|i: int| 0 <= i < uploads.len() ==> is_consistent(#[trigger] uploads[i]))
            ==> after_uploads(DocumentView::absent(), uploads).is_purged(),
    decreases uploads.len(),
{
    if uploads.len() > 0 {
        let front = uploads.drop_last();
        let last = uploads.last();
        let before = after_uploads(DocumentView::absent(), front);
        lemma_every_record_is_tidy(front);
        lemma_updated_is_tidy(before, last.annotations, last.deleted, last.timestamp);
        if forall|i: int| 0 <= i < uploads.len() ==> is_consistent(#[trigger] uploads[i]) {
            assert forall|i: int| 0 <= i < front.len() implies is_consistent(
                #[trigger] front[i],
            ) by {
                assert(front[i] == uploads[i]);
            }
            assert(is_consistent(uploads[uploads.len() - 1]));
            lemma_updated_is_purged(before, last.annotations, last.deleted, last.timestamp);
        }
    }
}

} // verus!
