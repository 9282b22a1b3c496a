//! Reconciling the annotations a device uploads with those already stored.
//!
//! The stored and the uploaded annotations are folded, in order, into a list
//! that holds at most one annotation per position. A stored annotation is
//! dropped when the upload deletes it; an uploaded one is dropped when the
//! store had already deleted it, and otherwise takes its position unless an
//! annotation that is at least as recent holds it.

use vstd::prelude::*;

use crate::models::{Annotation, AnnotationView, Position};
use crate::text::{less_text, same_text, text_less};

verus! {

broadcast use vstd::std_specs::vec::group_vec_axioms;

/// The first index of `held` that marks `place`, or -1 where none does.
pub open spec fn slot_of(held: Seq<AnnotationView>, place: Position) -> int
    decreases held.len(),
{
    if held.len() == 0 {
        -1
    } else {
        let before = slot_of(held.drop_last(), place);
        if before >= 0 {
            before
        } else if held.last().position() == place {
            held.len() - 1
        } else {
            -1
        }
    }
}

/// `held` with `a` at its position, whatever stood there.
pub open spec fn put(held: Seq<AnnotationView>, a: AnnotationView) -> Seq<AnnotationView> {
    let slot = slot_of(held, a.position());
    if slot < 0 {
        held.push(a)
    } else {
        held.update(slot, a)
    }
}

/// `held` with `a` at its position, unless an annotation that is at least as
/// recent stands there.
pub open spec fn offer(held: Seq<AnnotationView>, a: AnnotationView) -> Seq<AnnotationView> {
    let slot = slot_of(held, a.position());
    if slot < 0 {
        held.push(a)
    } else if text_less(held[slot].effective_time(), a.effective_time()) {
        held.update(slot, a)
    } else {
        held
    }
}

/// The stored annotations that the upload does not delete, one per position:
/// of two at one position the later in `server` stays.
pub open spec fn keep_stored(
    server: Seq<AnnotationView>,
    client_deleted: Seq<Seq<char>>,
) -> Seq<AnnotationView>
    decreases server.len(),
{
    if server.len() == 0 {
        Seq::empty()
    } else {
        let held = keep_stored(server.drop_last(), client_deleted);
        if client_deleted.contains(server.last().datetime) {
            held
        } else {
            put(held, server.last())
        }
    }
}

/// `held` after the uploaded annotations were offered to it in order, those
/// left out that the store had deleted.
pub open spec fn take_uploaded(
    held: Seq<AnnotationView>,
    client: Seq<AnnotationView>,
    server_deleted: Seq<Seq<char>>,
) -> Seq<AnnotationView>
    decreases client.len(),
{
    if client.len() == 0 {
        held
    } else {
        let before = take_uploaded(held, client.drop_last(), server_deleted);
        if server_deleted.contains(client.last().datetime) {
            before
        } else {
            offer(before, client.last())
        }
    }
}

/// The annotations to store after an upload.
pub open spec fn merged(
    server: Seq<AnnotationView>,
    client: Seq<AnnotationView>,
    server_deleted: Seq<Seq<char>>,
    client_deleted: Seq<Seq<char>>,
) -> Seq<AnnotationView> {
    take_uploaded(keep_stored(server, client_deleted), client, server_deleted)
}

/// `slot_of` gives the least index that marks `place`.
pub proof fn lemma_slot_of(held: Seq<AnnotationView>, place: Position)
    ensures
        -1 <= slot_of(held, place) < held.len(),
        slot_of(held, place) >= 0 ==> held[slot_of(held, place)].position() == place,
        forall|j: int|
            0 <= j < held.len() && (j < slot_of(held, place) || slot_of(held, place) < 0)
                ==> (#[trigger] held[j]).position() != place,
    decreases held.len(),
{
    if held.len() > 0 {
        lemma_slot_of(held.drop_last(), place);
        assert forall|j: int|
            0 <= j < held.len() && (j < slot_of(held, place) || slot_of(held, place)
                < 0) implies (#[trigger] held[j]).position() != place by {
            if j < held.len() - 1 {
                assert(held.drop_last()[j] == held[j]);
            }
        }
    }
}

/// Whether `wanted` is one of `tombstones`.
pub fn is_deleted(tombstones: &[String], wanted: &str) -> (found: bool)
    ensures
        found == tombstones.deep_view().contains(wanted@),
{
    let mut i: usize = 0;
    while i < tombstones.len()
        invariant
            i <= tombstones.len(),
            forall|j: int| 0 <= j < i ==> tombstones.deep_view()[j] != wanted@,
        decreases tombstones.len() - i,
    {
        if same_text(tombstones[i].as_str(), wanted) {
            assert(tombstones.deep_view()[i as int] == wanted@);
            return true;
        }
        i += 1;
    }
    false
}

/// The index in `held` of the annotation that marks the place of `a`.
fn find_slot(held: &Vec<Annotation>, a: &Annotation) -> (slot: Option<usize>)
    ensures
        match slot {
            Some(i) => i < held.len() && i == slot_of(held.deep_view(), a@.position()),
            None => slot_of(held.deep_view(), a@.position()) < 0,
        },
{
    let mut i: usize = 0;
    while i < held.len()
        invariant
            i <= held.len(),
            forall|j: int|
                0 <= j < i ==> (#[trigger] held.deep_view()[j]).position() != a@.position(),
        decreases held.len() - i,
    {
        assert(held.deep_view()[i as int] == held[i as int]@);
        if held[i].same_position(a) {
            proof {
                lemma_slot_of(held.deep_view(), a@.position());
            }
            return Some(i);
        }
        i += 1;
    }
    proof {
        lemma_slot_of(held.deep_view(), a@.position());
    }
    None
}

/// Stores `a` at its position in `held`, whatever stood there.
fn put_annotation(held: &mut Vec<Annotation>, a: Annotation)
    ensures
        final(held).deep_view() == put(old(held).deep_view(), a@),
{
    match find_slot(held, &a) {
        Some(i) => {
            held[i] = a;
            assert(held.deep_view() =~= old(held).deep_view().update(i as int, a@));
        },
        None => {
            held.push(a);
            assert(held.deep_view() =~= old(held).deep_view().push(a@));
        },
    }
}

/// Stores `a` at its position in `held`, unless an annotation that is at
/// least as recent stands there.
fn offer_annotation(held: &mut Vec<Annotation>, a: Annotation)
    ensures
        final(held).deep_view() == offer(old(held).deep_view(), a@),
{
    match find_slot(held, &a) {
        Some(i) => {
            assert(held.deep_view()[i as int] == held[i as int]@);
            if less_text(held[i].effective_time(), a.effective_time()) {
                held[i] = a;
                assert(held.deep_view() =~= old(held).deep_view().update(i as int, a@));
            }
        },
        None => {
            held.push(a);
            assert(held.deep_view() =~= old(held).deep_view().push(a@));
        },
    }
}

/// Merges the uploaded annotations into the stored ones.
///
/// A stored annotation stays unless `client_deleted` names its creation time.
/// An uploaded annotation is left out when `server_deleted` names its
/// creation time; otherwise it is added, or replaces the annotation at its
/// position where its effective time is strictly the later.
pub fn merge_annotations(
    server: Vec<Annotation>,
    client: Vec<Annotation>,
    server_deleted: &[String],
    client_deleted: &[String],
) -> (result: Vec<Annotation>)
    ensures
        result.deep_view() == merged(
            server.deep_view(),
            client.deep_view(),
            server_deleted.deep_view(),
            client_deleted.deep_view(),
        ),
{
    let ghost stored = server.deep_view();
    let ghost stored_items = server@;
    let ghost uploaded = client.deep_view();
    let ghost uploaded_items = client@;
    let mut held: Vec<Annotation> = Vec::new();
    assert(held.deep_view() =~= Seq::empty());
    assert(stored.take(0) =~= Seq::empty());

    for a in it: server
        invariant
            it.seq() == stored_items,
            stored.len() == stored_items.len(),
            forall|i: int| 0 <= i < stored.len() ==> stored[i] == (#[trigger] stored_items[i])@,
            held.deep_view() == keep_stored(stored.take(it.index()), client_deleted.deep_view()),
    {
        proof {
            let n = it.index();
            assert(stored.take(n + 1).drop_last() =~= stored.take(n));
            assert(stored.take(n + 1).last() == a@);
        }
        if !is_deleted(client_deleted, a.datetime.as_str()) {
            put_annotation(&mut held, a);
        }
    }
    assert(stored.take(stored.len() as int) =~= stored);

    let ghost base = held.deep_view();
    assert(uploaded.take(0) =~= Seq::empty());
    for a in it: client
        invariant
            it.seq() == uploaded_items,
            uploaded.len() == uploaded_items.len(),
            forall|i: int|
                0 <= i < uploaded.len() ==> uploaded[i] == (#[trigger] uploaded_items[i])@,
            held.deep_view() == take_uploaded(
                base,
                uploaded.take(it.index()),
                server_deleted.deep_view(),
            ),
    {
        proof {
            let m = it.index();
            assert(uploaded.take(m + 1).drop_last() =~= uploaded.take(m));
            assert(uploaded.take(m + 1).last() == a@);
        }
        if !is_deleted(server_deleted, a.datetime.as_str()) {
            offer_annotation(&mut held, a);
        }
    }
    assert(uploaded.take(uploaded.len() as int) =~= uploaded);
    held
}

} // verus!
