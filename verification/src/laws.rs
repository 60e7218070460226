//! The laws of the hub and the heartbeat, stated over the abstract models
//! that the executable methods are proved to follow.

use vstd::prelude::*;
use crate::server::{
    HubModel, model_connect, model_disconnect, model_join, find_room, except, route_deliveries,
    disconnect_deliveries, lemma_connect_wf, lemma_join_wf, lemma_except, lemma_find_room,
    lemma_find_room_names, lemma_find_room_push, lemma_fanout_no_self, strip_member, RoomModel,
};
use crate::session::hb_expired;
use crate::CLIENT_TIMEOUT;

verus! {

/// Uniqueness: registering a fresh id keeps the registered ids free of
/// duplicates, and the new id is registered afterwards. Together with the
/// freshness that `handle_connect` guarantees, no two simultaneously
/// registered sessions ever share an id.
pub proof fn lemma_register_uniqueness(h: HubModel, id: usize)
    requires
        h.wf(),
        !h.sessions.contains(id),
    ensures
        model_connect(h, id).wf(),
        model_connect(h, id).sessions.no_duplicates(),
        model_connect(h, id).sessions.contains(id),
{
    lemma_connect_wf(h, id);
    assert(model_connect(h, id).sessions[h.sessions.len() as int] == id);
}

/// Single-room invariant: in a well-formed hub, a session id appears in the
/// member set of at most one room.
pub proof fn lemma_single_room(h: HubModel, id: usize, i: int, j: int)
    requires
        h.wf(),
        0 <= i < h.rooms.len(),
        0 <= j < h.rooms.len(),
        h.rooms[i].members.contains(id),
        h.rooms[j].members.contains(id),
    ensures
        i == j,
{
    if i < j {
        assert(!(h.rooms[i].members.contains(id) && h.rooms[j].members.contains(id)));
    } else if j < i {
        assert(!(h.rooms[j].members.contains(id) && h.rooms[i].members.contains(id)));
    }
}

/// Join atomicity: right after a join of a registered id, the id is a
/// member of the target room and of no other room, and the room table holds
/// exactly the old rooms plus (at most) the target. No intermediate state
/// is observable, because the whole step is one function of the model.
pub proof fn lemma_join_atomic(h: HubModel, id: usize, room: Seq<char>)
    requires
        h.wf(),
        h.sessions.contains(id),
    ensures
        model_join(h, id, room).has_room(room),
        model_join(h, id, room).members_of(room).contains(id),
        forall|n: Seq<char>|
            n != room ==> !(#[trigger] model_join(h, id, room).members_of(n)).contains(id),
        forall|n: Seq<char>|
            #[trigger] model_join(h, id, room).has_room(n) == (h.has_room(n) || n == room),
{
    let h2 = model_join(h, id, room);
    let stripped = h.rooms.map_values(|r: RoomModel| strip_member(r, id));
    let t = find_room(h.rooms, room);
    lemma_find_room(h.rooms, room);
    lemma_join_wf(h, id, room);
    assert forall|i: int| 0 <= i < stripped.len() implies !(
    #[trigger] stripped[i].members.contains(id)) by {
        lemma_except(h.rooms[i].members, id);
    }
    if t >= 0 {
        assert forall|i: int| 0 <= i < h2.rooms.len() implies (#[trigger] h2.rooms[i]).name
            == h.rooms[i].name by {}
        assert forall|n: Seq<char>| true implies #[trigger] h2.has_room(n) == (h.has_room(n) || n
            == room) by {
            lemma_find_room_names(h2.rooms, h.rooms, n);
            if n == room {
            }
        }
        lemma_find_room_names(h2.rooms, h.rooms, room);
        assert(find_room(h2.rooms, room) == t);
        assert(h2.rooms[t].members == except(h.rooms[t].members, id).push(id));
        assert(h2.members_of(room).contains(id)) by {
            assert(h2.rooms[t].members[h2.rooms[t].members.len() - 1] == id);
        }
        assert forall|n: Seq<char>| n != room implies !(#[trigger] h2.members_of(n)).contains(
            id,
        ) by {
            let f = find_room(h2.rooms, n);
            if f >= 0 {
                lemma_find_room(h2.rooms, n);
                assert(h2.rooms[f].name == n);
                assert(f != t);
                assert(h2.rooms[f] == stripped[f]);
            }
        }
    } else {
        let newr = RoomModel { name: room, members: seq![id] };
        assert(h2.rooms == stripped.push(newr));
        assert forall|i: int| 0 <= i < stripped.len() implies (#[trigger] stripped[i]).name
            == h.rooms[i].name by {}
        lemma_find_room_names(stripped, h.rooms, room);
        lemma_find_room_push(stripped, newr, room);
        assert(find_room(h2.rooms, room) == stripped.len());
        assert(h2.members_of(room) == seq![id]);
        assert(h2.members_of(room)[0] == id);
        assert forall|n: Seq<char>| true implies #[trigger] h2.has_room(n) == (h.has_room(n) || n
            == room) by {
            lemma_find_room_names(stripped, h.rooms, n);
            lemma_find_room_push(stripped, newr, n);
        }
        assert forall|n: Seq<char>| n != room implies !(#[trigger] h2.members_of(n)).contains(
            id,
        ) by {
            let f = find_room(h2.rooms, n);
            if f >= 0 {
                lemma_find_room(h2.rooms, n);
                assert(h2.rooms[f].name == n);
                assert(f != stripped.len());
                assert(h2.rooms[f] == stripped[f]);
            }
        }
    }
}

/// No self-echo: routing a message on behalf of `id` never produces a
/// delivery addressed to `id` itself.
pub proof fn lemma_no_self_echo(h: HubModel, id: usize, room: Seq<char>, text: Seq<char>)
    ensures
        forall|k: int|
            0 <= k < route_deliveries(h, id, room, text).len() ==> (#[trigger] route_deliveries(
                h,
                id,
                room,
                text,
            )[k]).0 != id,
{
    let t = find_room(h.rooms, room);
    if t >= 0 {
        lemma_fanout_no_self(h.rooms[t].members, id, text);
    }
}

/// Idempotent deregistration: after one deregistration the id is gone, and
/// a second deregistration of the same id changes nothing and notifies
/// nobody.
pub proof fn lemma_deregister_idempotent(h: HubModel, id: usize)
    requires
        h.wf(),
    ensures
        !model_disconnect(h, id).sessions.contains(id),
        model_disconnect(model_disconnect(h, id), id) == model_disconnect(h, id),
        disconnect_deliveries(model_disconnect(h, id), id) == Seq::<(usize, Seq<char>)>::empty(),
{
    lemma_except(h.sessions, id);
}

/// Heartbeat eviction: a session silent for longer than the timeout is
/// evicted by its monitor, and the deregistration that follows removes its
/// id from the session table and from every room, whether or not a close
/// frame ever arrived.
pub proof fn lemma_heartbeat_eviction(h: HubModel, id: usize, now: u64, last: u64)
    requires
        h.wf(),
        now >= last,
        now - last > CLIENT_TIMEOUT,
    ensures
        hb_expired(now, last),
        !model_disconnect(h, id).sessions.contains(id),
        forall|i: int|
            0 <= i < model_disconnect(h, id).rooms.len() ==> !(#[trigger] model_disconnect(
                h,
                id,
            ).rooms[i]).members.contains(id),
{
    lemma_except(h.sessions, id);
    let h2 = model_disconnect(h, id);
    assert forall|i: int| 0 <= i < h2.rooms.len() implies !(#[trigger] h2.rooms[i]).members.contains(
        id,
    ) by {
        if h.sessions.contains(id) {
            lemma_except(h.rooms[i].members, id);
        } else {
            if h.rooms[i].members.contains(id) {
                assert(h.sessions.contains(id));
            }
        }
    }
}

} // verus!
