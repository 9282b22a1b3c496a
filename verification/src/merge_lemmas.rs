//! What holds of every merge.

use vstd::prelude::*;

use crate::merge::{keep_stored, lemma_slot_of, merged, offer, put, slot_of, take_uploaded};
use crate::models::{distinct_positions, AnnotationView, Position};
use crate::text::{lemma_text_less_irreflexive, lemma_text_less_transitive, text_less};

verus! {

/// `a` is a stored annotation that the upload does not delete.
pub open spec fn is_kept(
    server: Seq<AnnotationView>,
    client_deleted: Seq<Seq<char>>,
    a: AnnotationView,
) -> bool {
    server.contains(a) && !client_deleted.contains(a.datetime)
}

/// `a` is an uploaded annotation that the store had not deleted.
pub open spec fn is_taken(
    client: Seq<AnnotationView>,
    server_deleted: Seq<Seq<char>>,
    a: AnnotationView,
) -> bool {
    client.contains(a) && !server_deleted.contains(a.datetime)
}

/// Some annotation of `held` marks `place`, and it is not older than `time`.
pub open spec fn holds_as_recent(
    held: Seq<AnnotationView>,
    place: Position,
    time: Seq<char>,
) -> bool {
    let slot = slot_of(held, place);
    slot >= 0 && !text_less(held[slot].effective_time(), time)
}

proof fn lemma_put_distinct(held: Seq<AnnotationView>, a: AnnotationView)
    requires
        distinct_positions(held),
    ensures
        distinct_positions(put(held, a)),
{
    lemma_slot_of(held, a.position());
}

proof fn lemma_offer_distinct(held: Seq<AnnotationView>, a: AnnotationView)
    requires
        distinct_positions(held),
    ensures
        distinct_positions(offer(held, a)),
{
    lemma_slot_of(held, a.position());
}

proof fn lemma_keep_stored_distinct(server: Seq<AnnotationView>, client_deleted: Seq<Seq<char>>)
    ensures
        distinct_positions(keep_stored(server, client_deleted)),
    decreases server.len(),
{
    if server.len() > 0 {
        lemma_keep_stored_distinct(server.drop_last(), client_deleted);
        lemma_put_distinct(keep_stored(server.drop_last(), client_deleted), server.last());
    }
}

proof fn lemma_take_uploaded_distinct(
    held: Seq<AnnotationView>,
    client: Seq<AnnotationView>,
    server_deleted: Seq<Seq<char>>,
)
    requires
        distinct_positions(held),
    ensures
        distinct_positions(take_uploaded(held, client, server_deleted)),
    decreases client.len(),
{
    if client.len() > 0 {
        lemma_take_uploaded_distinct(held, client.drop_last(), server_deleted);
        lemma_offer_distinct(
            take_uploaded(held, client.drop_last(), server_deleted),
            client.last(),
        );
    }
}

/// A merge holds at most one annotation per position, whatever it was given.
pub proof fn lemma_merged_distinct(
    server: Seq<AnnotationView>,
    client: Seq<AnnotationView>,
    server_deleted: Seq<Seq<char>>,
    client_deleted: Seq<Seq<char>>,
)
    ensures
        distinct_positions(merged(server, client, server_deleted, client_deleted)),
{
    lemma_keep_stored_distinct(server, client_deleted);
    lemma_take_uploaded_distinct(keep_stored(server, client_deleted), client, server_deleted);
}

proof fn lemma_keep_stored_members(server: Seq<AnnotationView>, client_deleted: Seq<Seq<char>>)
    ensures
        forall|i: int|
            0 <= i < keep_stored(server, client_deleted).len() ==> is_kept(
                server,
                client_deleted,
                #[trigger] keep_stored(server, client_deleted)[i],
            ),
    decreases server.len(),
{
    if server.len() > 0 {
        let before = keep_stored(server.drop_last(), client_deleted);
        let after = keep_stored(server, client_deleted);
        lemma_keep_stored_members(server.drop_last(), client_deleted);
        lemma_slot_of(before, server.last().position());
        assert forall|i: int| 0 <= i < after.len() implies is_kept(
            server,
            client_deleted,
            #[trigger] after[i],
        ) by {
            if after[i] == server.last() {
                assert(server[server.len() - 1] == after[i]);
            } else {
                assert(before[i] == after[i]);
                assert(is_kept(server.drop_last(), client_deleted, before[i]));
                let j = choose|j: int|
                    0 <= j < server.drop_last().len() && server.drop_last()[j] == before[i];
                assert(server[j] == after[i]);
            }
        }
    }
}

proof fn lemma_take_uploaded_members(
    held: Seq<AnnotationView>,
    client: Seq<AnnotationView>,
    server_deleted: Seq<Seq<char>>,
)
    ensures
        forall|i: int|
            0 <= i < take_uploaded(held, client, server_deleted).len() ==> {
                let a = #[trigger] take_uploaded(held, client, server_deleted)[i];
                held.contains(a) || is_taken(client, server_deleted, a)
            },
    decreases client.len(),
{
    if client.len() > 0 {
        let before = take_uploaded(held, client.drop_last(), server_deleted);
        let after = take_uploaded(held, client, server_deleted);
        lemma_take_uploaded_members(held, client.drop_last(), server_deleted);
        lemma_slot_of(before, client.last().position());
        assert forall|i: int| 0 <= i < after.len() implies {
            let a = #[trigger] after[i];
            held.contains(a) || is_taken(client, server_deleted, a)
        } by {
            let a = after[i];
            if server_deleted.contains(client.last().datetime) || a != client.last() {
                assert(before[i] == a);
                if !held.contains(a) {
                    assert(is_taken(client.drop_last(), server_deleted, a));
                    let j = choose|j: int|
                        0 <= j < client.drop_last().len() && client.drop_last()[j] == a;
                    assert(client[j] == a);
                }
            } else {
                assert(client[client.len() - 1] == a);
            }
        }
    }
}

/// Every annotation of a merge is a stored one that the upload does not
/// delete, or an uploaded one that the store had not deleted: a merge makes
/// up nothing, and brings nothing back that the other side deleted.
pub proof fn lemma_merged_members(
    server: Seq<AnnotationView>,
    client: Seq<AnnotationView>,
    server_deleted: Seq<Seq<char>>,
    client_deleted: Seq<Seq<char>>,
)
    ensures
        forall|i: int|
            0 <= i < merged(server, client, server_deleted, client_deleted).len() ==> {
                let a = #[trigger] merged(server, client, server_deleted, client_deleted)[i];
                is_kept(server, client_deleted, a) || is_taken(client, server_deleted, a)
            },
{
    let held = keep_stored(server, client_deleted);
    lemma_keep_stored_members(server, client_deleted);
    lemma_take_uploaded_members(held, client, server_deleted);
    assert forall|i: int|
        0 <= i < merged(server, client, server_deleted, client_deleted).len() implies {
        let a = #[trigger] merged(server, client, server_deleted, client_deleted)[i];
        is_kept(server, client_deleted, a) || is_taken(client, server_deleted, a)
    } by {
        let a = merged(server, client, server_deleted, client_deleted)[i];
        if held.contains(a) {
            let j = choose|j: int| 0 <= j < held.len() && held[j] == a;
            assert(is_kept(server, client_deleted, held[j]));
        }
    }
}

/// The upload wins on deletion: an annotation whose creation time the
/// upload deletes is left only where the upload brings it itself. So after
/// an upload that brings no annotations, nothing that it deletes is left.
pub proof fn lemma_deleted_by_upload_leave(
    server: Seq<AnnotationView>,
    client: Seq<AnnotationView>,
    server_deleted: Seq<Seq<char>>,
    client_deleted: Seq<Seq<char>>,
)
    ensures
        forall|i: int|
            0 <= i < merged(server, client, server_deleted, client_deleted).len() ==> {
                let a = #[trigger] merged(server, client, server_deleted, client_deleted)[i];
                client_deleted.contains(a.datetime) ==> is_taken(client, server_deleted, a)
            },
        client.len() == 0 ==> forall|i: int|
            0 <= i < merged(server, client, server_deleted, client_deleted).len()
                ==> !client_deleted.contains(
                (#[trigger] merged(server, client, server_deleted, client_deleted)[i]).datetime,
            ),
{
    lemma_merged_members(server, client, server_deleted, client_deleted);
}

/// The store wins over a late upload: where no stored annotation carries a
/// deleted creation time, none of the merge does, whatever is uploaded.
pub proof fn lemma_deleted_in_store_stay_out(
    server: Seq<AnnotationView>,
    client: Seq<AnnotationView>,
    server_deleted: Seq<Seq<char>>,
    client_deleted: Seq<Seq<char>>,
)
    requires
        forall|i: int|
            0 <= i < server.len() ==> !server_deleted.contains((#[trigger] server[i]).datetime),
    ensures
        forall|i: int|
            0 <= i < merged(server, client, server_deleted, client_deleted).len()
                ==> !server_deleted.contains(
                (#[trigger] merged(server, client, server_deleted, client_deleted)[i]).datetime,
            ),
{
    lemma_merged_members(server, client, server_deleted, client_deleted);
    assert forall|i: int|
        0 <= i < merged(
            server,
            client,
            server_deleted,
            client_deleted,
        ).len() implies !server_deleted.contains(
        (#[trigger] merged(server, client, server_deleted, client_deleted)[i]).datetime,
    ) by {
        let a = merged(server, client, server_deleted, client_deleted)[i];
        if is_kept(server, client_deleted, a) {
            let j = choose|j: int| 0 <= j < server.len() && server[j] == a;
            assert(!server_deleted.contains(server[j].datetime));
        }
    }
}

proof fn lemma_put_holds(held: Seq<AnnotationView>, a: AnnotationView, place: Position)
    ensures
        slot_of(put(held, a), a.position()) >= 0,
        slot_of(held, place) >= 0 ==> slot_of(put(held, a), place) == slot_of(held, place),
{
    lemma_slot_of(held, a.position());
    lemma_slot_of(held, place);
    lemma_slot_of(put(held, a), a.position());
    lemma_slot_of(put(held, a), place);
    let slot = slot_of(held, a.position());
    if slot < 0 {
        assert(put(held, a)[held.len() as int] == a);
    } else {
        assert(put(held, a)[slot] == a);
    }
    if slot_of(held, place) >= 0 {
        let k = slot_of(held, place);
        assert(put(held, a)[k].position() == place);
        assert forall|j: int| 0 <= j < k implies (#[trigger] put(held, a)[j]).position()
            != place by {
            assert(held[j].position() != place);
        }
    }
}

proof fn lemma_keep_stored_holds(server: Seq<AnnotationView>, client_deleted: Seq<Seq<char>>)
    ensures
        forall|i: int|
            0 <= i < server.len() && !client_deleted.contains((#[trigger] server[i]).datetime)
                ==> slot_of(keep_stored(server, client_deleted), server[i].position()) >= 0,
    decreases server.len(),
{
    if server.len() > 0 {
        let before = keep_stored(server.drop_last(), client_deleted);
        let after = keep_stored(server, client_deleted);
        lemma_keep_stored_holds(server.drop_last(), client_deleted);
        assert forall|i: int|
            0 <= i < server.len() && !client_deleted.contains(
                (#[trigger] server[i]).datetime,
            ) implies slot_of(after, server[i].position()) >= 0 by {
            if i < server.len() - 1 {
                assert(server.drop_last()[i] == server[i]);
            }
            if !client_deleted.contains(server.last().datetime) {
                lemma_put_holds(before, server.last(), server[i].position());
            }
        }
    }
}

proof fn lemma_offer_holds(
    held: Seq<AnnotationView>,
    a: AnnotationView,
    place: Position,
    time: Seq<char>,
)
    ensures
        holds_as_recent(offer(held, a), a.position(), a.effective_time()),
        slot_of(held, place) >= 0 ==> slot_of(offer(held, a), place) == slot_of(held, place),
        holds_as_recent(held, place, time) ==> holds_as_recent(offer(held, a), place, time),
{
    lemma_slot_of(held, a.position());
    lemma_slot_of(held, place);
    lemma_slot_of(offer(held, a), a.position());
    lemma_slot_of(offer(held, a), place);
    lemma_text_less_irreflexive(a.effective_time());
    let slot = slot_of(held, a.position());
    if slot < 0 {
        assert(offer(held, a)[held.len() as int] == a);
    } else {
        assert(offer(held, a)[slot].position() == a.position());
        assert forall|j: int| 0 <= j < slot implies (#[trigger] offer(held, a)[j]).position()
            != a.position() by {
            assert(held[j].position() != a.position());
        }
    }
    if slot_of(held, place) >= 0 {
        let k = slot_of(held, place);
        assert(offer(held, a)[k].position() == place);
        assert forall|j: int| 0 <= j < k implies (#[trigger] offer(held, a)[j]).position()
            != place by {
            assert(held[j].position() != place);
        }
        if holds_as_recent(held, place, time) && offer(held, a)[k] != held[k] {
            if text_less(a.effective_time(), time) {
                lemma_text_less_transitive(held[k].effective_time(), a.effective_time(), time);
            }
        }
    }
}

proof fn lemma_take_uploaded_holds(
    held: Seq<AnnotationView>,
    client: Seq<AnnotationView>,
    server_deleted: Seq<Seq<char>>,
)
    ensures
        forall|place: Position|
            slot_of(held, place) >= 0 ==> #[trigger] slot_of(
                take_uploaded(held, client, server_deleted),
                place,
            ) == slot_of(held, place),
        forall|i: int|
            0 <= i < client.len() && !server_deleted.contains((#[trigger] client[i]).datetime)
                ==> holds_as_recent(
                take_uploaded(held, client, server_deleted),
                client[i].position(),
                client[i].effective_time(),
            ),
    decreases client.len(),
{
    if client.len() > 0 {
        let before = take_uploaded(held, client.drop_last(), server_deleted);
        let after = take_uploaded(held, client, server_deleted);
        lemma_take_uploaded_holds(held, client.drop_last(), server_deleted);
        assert forall|place: Position| slot_of(held, place) >= 0 implies #[trigger] slot_of(
            after,
            place,
        ) == slot_of(held, place) by {
            assert(slot_of(before, place) == slot_of(held, place));
            lemma_offer_holds(before, client.last(), place, Seq::empty());
        }
        assert forall|i: int|
            0 <= i < client.len() && !server_deleted.contains(
                (#[trigger] client[i]).datetime,
            ) implies holds_as_recent(after, client[i].position(), client[i].effective_time()) by {
            if i < client.len() - 1 {
                assert(client.drop_last()[i] == client[i]);
            }
            lemma_offer_holds(
                before,
                client.last(),
                client[i].position(),
                client[i].effective_time(),
            );
        }
    }
}

/// Nothing live is lost to a merge. The place of every stored annotation
/// that the upload does not delete stays marked; and the place of every
/// uploaded annotation that the store had not deleted is marked by an
/// annotation that is at least as recent as the uploaded one.
pub proof fn lemma_merged_holds(
    server: Seq<AnnotationView>,
    client: Seq<AnnotationView>,
    server_deleted: Seq<Seq<char>>,
    client_deleted: Seq<Seq<char>>,
)
    ensures
        forall|i: int|
            0 <= i < server.len() && !client_deleted.contains((#[trigger] server[i]).datetime)
                ==> slot_of(
                merged(server, client, server_deleted, client_deleted),
                server[i].position(),
            ) >= 0,
        forall|i: int|
            0 <= i < client.len() && !server_deleted.contains((#[trigger] client[i]).datetime)
                ==> holds_as_recent(
                merged(server, client, server_deleted, client_deleted),
                client[i].position(),
                client[i].effective_time(),
            ),
{
    let held = keep_stored(server, client_deleted);
    lemma_keep_stored_holds(server, client_deleted);
    lemma_take_uploaded_holds(held, client, server_deleted);
    assert forall|i: int|
        0 <= i < server.len() && !client_deleted.contains(
            (#[trigger] server[i]).datetime,
        ) implies slot_of(
        merged(server, client, server_deleted, client_deleted),
        server[i].position(),
    ) >= 0 by {
        let place = server[i].position();
        assert(slot_of(held, place) >= 0);
        assert(slot_of(take_uploaded(held, client, server_deleted), place) == slot_of(
            held,
            place,
        ));
    }
}

/// Two devices mark one place: the stored annotation `a` and the uploaded
/// `b`, neither deleted by the other side. One annotation is left, the
/// uploaded one where its effective time is strictly the later, else the
/// stored one.
pub proof fn lemma_same_place_newer_wins(
    a: AnnotationView,
    b: AnnotationView,
    server_deleted: Seq<Seq<char>>,
    client_deleted: Seq<Seq<char>>,
)
    requires
        a.position() == b.position(),
        !client_deleted.contains(a.datetime),
        !server_deleted.contains(b.datetime),
    ensures
        merged(seq![a], seq![b], server_deleted, client_deleted) == if text_less(
            a.effective_time(),
            b.effective_time(),
        ) {
            seq![b]
        } else {
            seq![a]
        },
{
    let none = Seq::<AnnotationView>::empty();
    assert(seq![a].drop_last() =~= none);
    assert(seq![b].drop_last() =~= none);
    assert(keep_stored(none, client_deleted) == none);
    assert(slot_of(none, a.position()) == -1);
    assert(put(none, a) =~= seq![a]);
    assert(keep_stored(seq![a], client_deleted) == seq![a]);
    assert(take_uploaded(seq![a], none, server_deleted) == seq![a]);
    assert(slot_of(seq![a], b.position()) == 0);
    assert(seq![a].update(0, b) =~= seq![b]);
}

/// The places of `a` are those of none of `b`.
pub open spec fn apart(a: Seq<AnnotationView>, b: Seq<AnnotationView>) -> bool {
    forall|i: int, j: int|
        0 <= i < a.len() && 0 <= j < b.len() ==> (#[trigger] a[i]).position() != (
        #[trigger] b[j]).position()
}

proof fn lemma_keep_stored_all(server: Seq<AnnotationView>, client_deleted: Seq<Seq<char>>)
    requires
        distinct_positions(server),
        forall|i: int|
            0 <= i < server.len() ==> !client_deleted.contains((#[trigger] server[i]).datetime),
    ensures
        keep_stored(server, client_deleted) == server,
    decreases server.len(),
{
    if server.len() > 0 {
        let front = server.drop_last();
        assert forall|i: int| 0 <= i < front.len() implies !client_deleted.contains(
            (#[trigger] front[i]).datetime,
        ) by {
            assert(front[i] == server[i]);
        }
        lemma_keep_stored_all(front, client_deleted);
        lemma_slot_of(front, server.last().position());
        if slot_of(front, server.last().position()) >= 0 {
            let k = slot_of(front, server.last().position());
            assert(server[k].position() == server[server.len() - 1].position());
        }
        assert(front.push(server.last()) =~= server);
    } else {
        assert(server =~= Seq::empty());
    }
}

proof fn lemma_take_uploaded_all(
    held: Seq<AnnotationView>,
    client: Seq<AnnotationView>,
    server_deleted: Seq<Seq<char>>,
)
    requires
        distinct_positions(client),
        apart(held, client),
        forall|i: int|
            0 <= i < client.len() ==> !server_deleted.contains((#[trigger] client[i]).datetime),
    ensures
        take_uploaded(held, client, server_deleted) == held + client,
    decreases client.len(),
{
    if client.len() > 0 {
        let front = client.drop_last();
        assert forall|i: int| 0 <= i < front.len() implies !server_deleted.contains(
            (#[trigger] front[i]).datetime,
        ) by {
            assert(front[i] == client[i]);
        }
        assert(apart(held, front)) by {
            assert forall|i: int, j: int| 0 <= i < held.len() && 0 <= j < front.len() implies (
            #[trigger] held[i]).position() != (#[trigger] front[j]).position() by {
                assert(front[j] == client[j]);
            }
        }
        lemma_take_uploaded_all(held, front, server_deleted);
        let before = held + front;
        lemma_slot_of(before, client.last().position());
        if slot_of(before, client.last().position()) >= 0 {
            let k = slot_of(before, client.last().position());
            if k < held.len() {
                assert(held[k].position() == client[client.len() - 1].position());
            } else {
                assert(client[k - held.len()].position() == client[client.len() - 1].position());
            }
        }
        assert(before.push(client.last()) =~= held + client);
    } else {
        assert(held + client =~= held);
    }
}

/// Annotations at places of their own add up: where no two of all the
/// stored and uploaded annotations mark the same place and neither side
/// deletes any of them, the merge is the stored annotations followed by the
/// uploaded ones.
pub proof fn lemma_apart_uploads_add_up(
    server: Seq<AnnotationView>,
    client: Seq<AnnotationView>,
    server_deleted: Seq<Seq<char>>,
    client_deleted: Seq<Seq<char>>,
)
    requires
        distinct_positions(server),
        distinct_positions(client),
        apart(server, client),
        forall|i: int|
            0 <= i < server.len() ==> !client_deleted.contains((#[trigger] server[i]).datetime),
        forall|i: int|
            0 <= i < client.len() ==> !server_deleted.contains((#[trigger] client[i]).datetime),
    ensures
        merged(server, client, server_deleted, client_deleted) == server + client,
{
    lemma_keep_stored_all(server, client_deleted);
    lemma_take_uploaded_all(server, client, server_deleted);
}

} // verus!
