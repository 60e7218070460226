//! The hub: single owner of the session table and the room tables.
//!
//! Every mutation goes through one of the `handle_*` methods, mirroring a
//! command queue that is consumed one command at a time. The methods do not
//! perform any delivery themselves: they return the set of `Delivery`
//! values that the transport layer owes to the named sessions, so the whole
//! bookkeeping is a function from plain values to plain values.
//!
//! The abstract state is a [`HubModel`]; every method states exactly which
//! model the new state equals and which deliveries come out.

use vstd::prelude::*;
use vstd::string::*;
use vstd::set_lib::lemma_len_subset;

verus! {

broadcast use {vstd::seq_lib::group_seq_properties, vstd::set::group_set_axioms};

/// A chat message on its way to a session.
pub struct Message(pub String);

/// Command: a new connection asks to be registered.
pub struct Connect;

/// Command: the session with this id is gone.
pub struct Disconnect {
    pub id: usize,
}

/// Command: relay `msg` to every member of `room` except the sender `id`.
pub struct ClientMessage {
    pub id: usize,
    pub msg: String,
    pub room: String,
}

/// Command: list all known room names.
pub struct ListRooms;

/// Command: move session `id` into `room`.
pub struct Join {
    pub id: usize,
    pub room: String,
}

/// One message the hub owes to one session.
pub struct Delivery {
    pub to: usize,
    pub msg: Message,
}

/// The mathematical image of one room.
pub struct RoomModel {
    pub name: Seq<char>,
    pub members: Seq<usize>,
}

/// The mathematical image of the whole hub.
pub struct HubModel {
    pub sessions: Seq<usize>,
    pub rooms: Seq<RoomModel>,
}

/// The room every session starts in.
pub open spec fn main_room() -> Seq<char> {
    "Main"@
}

/// Index of the room called `name`, or `-1` if there is none.
pub open spec fn find_room(rooms: Seq<RoomModel>, name: Seq<char>) -> int
    decreases rooms.len(),
{
    if rooms.len() == 0 {
        -1
    } else if rooms[0].name == name {
        0
    } else {
        let r = find_room(rooms.drop_first(), name);
        if r == -1 {
            -1
        } else {
            r + 1
        }
    }
}

/// Index of the first room whose member set holds `id`, or `-1`.
pub open spec fn find_room_of(rooms: Seq<RoomModel>, id: usize) -> int
    decreases rooms.len(),
{
    if rooms.len() == 0 {
        -1
    } else if rooms[0].members.contains(id) {
        0
    } else {
        let r = find_room_of(rooms.drop_first(), id);
        if r == -1 {
            -1
        } else {
            r + 1
        }
    }
}

/// `members` with every occurrence of `id` removed, order kept.
pub open spec fn except(members: Seq<usize>, id: usize) -> Seq<usize>
    decreases members.len(),
{
    if members.len() == 0 {
        Seq::empty()
    } else {
        let rest = except(members.drop_last(), id);
        if members.last() == id {
            rest
        } else {
            rest.push(members.last())
        }
    }
}

/// The deliveries of broadcasting `text` to `members`, skipping `skip`.
pub open spec fn fanout(members: Seq<usize>, skip: usize, text: Seq<char>) -> Seq<
    (usize, Seq<char>),
> {
    except(members, skip).map_values(|m: usize| (m, text))
}

/// The plain-value image of a delivery list.
pub open spec fn deliveries_view(ds: Seq<Delivery>) -> Seq<(usize, Seq<char>)> {
    ds.map_values(|d: Delivery| (d.to, d.msg.0@))
}

impl HubModel {
    /// The hub's invariant: ids are unique, room names are unique, every
    /// member set is duplicate-free and drawn from the session table, a
    /// session sits in at most one room, and the main room exists.
    pub open spec fn wf(self) -> bool {
        &&& self.sessions.no_duplicates()
        &&& (forall|i: int, j: int|
            #![trigger self.rooms[i].name, self.rooms[j].name]
            0 <= i < j < self.rooms.len() ==> self.rooms[i].name != self.rooms[j].name)
        &&& (forall|i: int|
            0 <= i < self.rooms.len() ==> (#[trigger] self.rooms[i].members).no_duplicates())
        &&& (forall|i: int, x: usize|
            0 <= i < self.rooms.len() && (#[trigger] self.rooms[i].members.contains(x))
                ==> self.sessions.contains(x))
        &&& (forall|i: int, j: int, x: usize|
            #![trigger self.rooms[i].members.contains(x), self.rooms[j].members.contains(x)]
            0 <= i < j < self.rooms.len() ==> !(self.rooms[i].members.contains(x)
                && self.rooms[j].members.contains(x)))
        &&& find_room(self.rooms, main_room()) >= 0
    }

    /// Whether a room called `name` exists.
    pub open spec fn has_room(self, name: Seq<char>) -> bool {
        find_room(self.rooms, name) >= 0
    }

    /// The member list of the room called `name` (empty if there is none).
    pub open spec fn members_of(self, name: Seq<char>) -> Seq<usize> {
        if self.has_room(name) {
            self.rooms[find_room(self.rooms, name)].members
        } else {
            Seq::empty()
        }
    }

    /// All room names, in table order.
    pub open spec fn room_names(self) -> Seq<Seq<char>> {
        self.rooms.map_values(|r: RoomModel| r.name)
    }
}

/// `r` without `id` among its members.
pub open spec fn strip_member(r: RoomModel, id: usize) -> RoomModel {
    RoomModel { name: r.name, members: except(r.members, id) }
}

/// Registration: the fresh `id` joins the session table and the main room.
pub open spec fn model_connect(h: HubModel, id: usize) -> HubModel {
    let t = find_room(h.rooms, main_room());
    HubModel {
        sessions: h.sessions.push(id),
        rooms: h.rooms.update(
            t,
            RoomModel { name: h.rooms[t].name, members: h.rooms[t].members.push(id) },
        ),
    }
}

/// The notice sent on registration, to the main room as it was before.
pub open spec fn connect_deliveries(h: HubModel, id: usize) -> Seq<(usize, Seq<char>)> {
    fanout(h.members_of(main_room()), id, "Someone joined lobby"@)
}

/// Deregistration: `id` leaves the session table and every member set.
pub open spec fn model_disconnect(h: HubModel, id: usize) -> HubModel {
    if h.sessions.contains(id) {
        HubModel {
            sessions: except(h.sessions, id),
            rooms: h.rooms.map_values(|r: RoomModel| strip_member(r, id)),
        }
    } else {
        h
    }
}

/// The notice sent on deregistration, to what remains of `id`'s room.
pub open spec fn disconnect_deliveries(h: HubModel, id: usize) -> Seq<(usize, Seq<char>)> {
    let p = find_room_of(h.rooms, id);
    if h.sessions.contains(id) && p >= 0 {
        fanout(except(h.rooms[p].members, id), id, "Someone disconnected"@)
    } else {
        Seq::empty()
    }
}

/// Joining: `id` leaves its room and enters `room`, which is created on
/// first use. Unknown ids are ignored.
pub open spec fn model_join(h: HubModel, id: usize, room: Seq<char>) -> HubModel {
    if h.sessions.contains(id) {
        let stripped = h.rooms.map_values(|r: RoomModel| strip_member(r, id));
        let t = find_room(h.rooms, room);
        let rooms2 = if t >= 0 {
            stripped.update(
                t,
                RoomModel { name: h.rooms[t].name, members: except(h.rooms[t].members, id).push(id) },
            )
        } else {
            stripped.push(RoomModel { name: room, members: seq![id] })
        };
        HubModel { sessions: h.sessions, rooms: rooms2 }
    } else {
        h
    }
}

/// The notices sent on a join: "left" to the old room, "joined" to the new.
pub open spec fn join_deliveries(h: HubModel, id: usize, room: Seq<char>) -> Seq<
    (usize, Seq<char>),
> {
    if h.sessions.contains(id) {
        let p = find_room_of(h.rooms, id);
        let d1 = if p >= 0 {
            fanout(except(h.rooms[p].members, id), id, "Someone left"@)
        } else {
            Seq::empty()
        };
        let t = find_room(h.rooms, room);
        let d2 = fanout(
            if t >= 0 {
                except(h.rooms[t].members, id)
            } else {
                Seq::empty()
            },
            id,
            "Someone joined"@,
        );
        d1 + d2
    } else {
        Seq::empty()
    }
}

/// Routing: `text` goes to every member of `room` but the sender.
pub open spec fn route_deliveries(h: HubModel, id: usize, room: Seq<char>, text: Seq<char>) -> Seq<
    (usize, Seq<char>),
> {
    let t = find_room(h.rooms, room);
    if t >= 0 {
        fanout(h.rooms[t].members, id, text)
    } else {
        Seq::empty()
    }
}

pub proof fn lemma_find_room(rooms: Seq<RoomModel>, name: Seq<char>)
    ensures
        find_room(rooms, name) == -1 ==> forall|i: int|
            0 <= i < rooms.len() ==> (#[trigger] rooms[i]).name != name,
        find_room(rooms, name) != -1 ==> 0 <= find_room(rooms, name) < rooms.len()
            && rooms[find_room(rooms, name)].name == name && forall|j: int|
            0 <= j < find_room(rooms, name) ==> (#[trigger] rooms[j]).name != name,
    decreases rooms.len(),
{
    if rooms.len() == 0 {
    } else if rooms[0].name == name {
    } else {
        let rest = rooms.drop_first();
        lemma_find_room(rest, name);
        if find_room(rest, name) == -1 {
            assert forall|i: int| 0 <= i < rooms.len() implies (#[trigger] rooms[i]).name
                != name by {
                if i > 0 {
                    assert(rest[i - 1] == rooms[i]);
                }
            }
        } else {
            assert(rest[find_room(rooms, name) - 1] == rooms[find_room(rooms, name)]);
            assert forall|j: int| 0 <= j < find_room(rooms, name) implies (#[trigger] rooms[j]).name
                != name by {
                if j > 0 {
                    assert(rest[j - 1] == rooms[j]);
                }
            }
        }
    }
}

pub proof fn lemma_find_room_of(rooms: Seq<RoomModel>, id: usize)
    ensures
        find_room_of(rooms, id) == -1 ==> forall|i: int|
            0 <= i < rooms.len() ==> !(#[trigger] rooms[i]).members.contains(id),
        find_room_of(rooms, id) != -1 ==> 0 <= find_room_of(rooms, id) < rooms.len()
            && rooms[find_room_of(rooms, id)].members.contains(id) && forall|j: int|
            0 <= j < find_room_of(rooms, id) ==> !(#[trigger] rooms[j]).members.contains(id),
    decreases rooms.len(),
{
    if rooms.len() == 0 {
    } else if rooms[0].members.contains(id) {
    } else {
        let rest = rooms.drop_first();
        lemma_find_room_of(rest, id);
        if find_room_of(rest, id) == -1 {
            assert forall|i: int| 0 <= i < rooms.len() implies !(#[trigger] rooms[i]).members.contains(
                id,
            ) by {
                if i > 0 {
                    assert(rest[i - 1] == rooms[i]);
                }
            }
        } else {
            assert(rest[find_room_of(rooms, id) - 1] == rooms[find_room_of(rooms, id)]);
            assert forall|j: int| 0 <= j < find_room_of(rooms, id) implies !(#[trigger] rooms[j]).members.contains(
                id,
            ) by {
                if j > 0 {
                    assert(rest[j - 1] == rooms[j]);
                }
            }
        }
    }
}

/// `find_room` looks only at names, so it agrees on any two room tables
/// whose names agree pointwise.
pub proof fn lemma_find_room_names(a: Seq<RoomModel>, b: Seq<RoomModel>, name: Seq<char>)
    requires
        a.len() == b.len(),
        forall|i: int| 0 <= i < a.len() ==> (#[trigger] a[i]).name == b[i].name,
    ensures
        find_room(a, name) == find_room(b, name),
    decreases a.len(),
{
    if a.len() == 0 {
    } else {
        assert(a[0].name == b[0].name);
        if a[0].name == name {
        } else {
            let ra = a.drop_first();
            let rb = b.drop_first();
            assert forall|i: int| 0 <= i < ra.len() implies (#[trigger] ra[i]).name
                == rb[i].name by {
                assert(ra[i] == a[i + 1]);
                assert(rb[i] == b[i + 1]);
            }
            lemma_find_room_names(ra, rb, name);
        }
    }
}

/// How `find_room` behaves on a table extended by one room.
pub proof fn lemma_find_room_push(rooms: Seq<RoomModel>, r: RoomModel, name: Seq<char>)
    ensures
        find_room(rooms.push(r), name) == if find_room(rooms, name) >= 0 {
            find_room(rooms, name)
        } else if r.name == name {
            rooms.len() as int
        } else {
            -1int
        },
    decreases rooms.len(),
{
    if rooms.len() == 0 {
        assert(rooms.push(r)[0] == r);
        assert(rooms.push(r).drop_first() =~= Seq::<RoomModel>::empty());
    } else {
        assert(rooms.push(r)[0] == rooms[0]);
        if rooms[0].name == name {
        } else {
            assert(rooms.push(r).drop_first() =~= rooms.drop_first().push(r));
            lemma_find_room_push(rooms.drop_first(), r, name);
        }
    }
}

pub proof fn lemma_except(members: Seq<usize>, id: usize)
    ensures
        !except(members, id).contains(id),
        forall|x: usize|
            x != id ==> #[trigger] except(members, id).contains(x) == members.contains(x),
        members.no_duplicates() ==> except(members, id).no_duplicates(),
        !members.contains(id) ==> except(members, id) == members,
        except(members, id).len() <= members.len(),
    decreases members.len(),
{
    if members.len() == 0 {
        assert(except(members, id) =~= members);
    } else {
        let head = members.drop_last();
        let rest = except(head, id);
        lemma_except(head, id);
        assert(members =~= head.push(members.last()));
        if !members.contains(id) {
            assert(!head.contains(id));
            assert(except(members, id) =~= members);
        }
        if members.no_duplicates() {
            assert(head.no_duplicates());
            if members.last() != id {
                assert(!head.contains(members.last()));
                assert(!rest.contains(members.last()));
            }
        }
    }
}

/// Nothing in a fanout is addressed to the skipped id.
pub proof fn lemma_fanout_no_self(members: Seq<usize>, skip: usize, text: Seq<char>)
    ensures
        forall|k: int|
            0 <= k < fanout(members, skip, text).len() ==> (#[trigger] fanout(
                members,
                skip,
                text,
            )[k]).0 != skip,
{
    lemma_except(members, skip);
    assert forall|k: int| 0 <= k < fanout(members, skip, text).len() implies (#[trigger] fanout(
        members,
        skip,
        text,
    )[k]).0 != skip by {
        let e = except(members, skip);
        assert(fanout(members, skip, text)[k].0 == e[k]);
        assert(e.contains(e[k]));
    }
}

/// Appending a fresh element keeps a sequence duplicate-free.
pub proof fn lemma_push_no_dup(s: Seq<usize>, v: usize)
    requires
        s.no_duplicates(),
        !s.contains(v),
    ensures
        s.push(v).no_duplicates(),
{
    assert forall|i: int, j: int|
        0 <= i < s.push(v).len() && 0 <= j < s.push(v).len() && i != j implies s.push(v)[i]
        != s.push(v)[j] by {
        if i < s.len() && j < s.len() {
        } else if j == s.len() && i < s.len() {
            assert(s.contains(s[i]));
        } else if i == s.len() && j < s.len() {
            assert(s.contains(s[j]));
        }
    }
}

/// Registering a fresh id preserves the hub invariant.
pub proof fn lemma_connect_wf(h: HubModel, id: usize)
    requires
        h.wf(),
        !h.sessions.contains(id),
    ensures
        model_connect(h, id).wf(),
{
    let t = find_room(h.rooms, main_room());
    lemma_find_room(h.rooms, main_room());
    let h2 = model_connect(h, id);
    lemma_push_no_dup(h.sessions, id);
    assert forall|i: int| 0 <= i < h2.rooms.len() implies (#[trigger] h2.rooms[i]).name
        == h.rooms[i].name by {}
    assert forall|i: int| 0 <= i < h2.rooms.len() implies (#[trigger] h2.rooms[i].members).no_duplicates() by {
        if i == t {
            assert(!h.rooms[t].members.contains(id)) by {
                if h.rooms[t].members.contains(id) {
                    assert(h.sessions.contains(id));
                }
            }
            lemma_push_no_dup(h.rooms[t].members, id);
        }
    }
    assert forall|i: int, x: usize|
        0 <= i < h2.rooms.len() && (#[trigger] h2.rooms[i].members.contains(x)) implies h2.sessions.contains(
        x,
    ) by {
        if i == t {
            if x == id {
                assert(h2.sessions[h.sessions.len() as int] == id);
            } else {
                assert(h.rooms[i].members.contains(x));
            }
        } else {
            assert(h.rooms[i].members.contains(x));
        }
    }
    assert forall|i: int, j: int, x: usize|
        #![trigger h2.rooms[i].members.contains(x), h2.rooms[j].members.contains(x)]
        0 <= i < j < h2.rooms.len() implies !(h2.rooms[i].members.contains(x)
        && h2.rooms[j].members.contains(x)) by {
        if h2.rooms[i].members.contains(x) && h2.rooms[j].members.contains(x) {
            if x == id {
                if i == t {
                    assert(h.rooms[j].members.contains(id));
                } else {
                    assert(h.rooms[i].members.contains(id));
                }
                assert(h.sessions.contains(id));
            } else {
                assert(h.rooms[i].members.contains(x));
                assert(h.rooms[j].members.contains(x));
            }
        }
    }
    lemma_find_room_names(h2.rooms, h.rooms, main_room());
}

/// Deregistering an id preserves the hub invariant.
pub proof fn lemma_disconnect_wf(h: HubModel, id: usize)
    requires
        h.wf(),
    ensures
        model_disconnect(h, id).wf(),
{
    if h.sessions.contains(id) {
        let h2 = model_disconnect(h, id);
        lemma_except(h.sessions, id);
        assert forall|i: int| 0 <= i < h2.rooms.len() implies (#[trigger] h2.rooms[i]).name
            == h.rooms[i].name by {}
        assert forall|i: int| 0 <= i
            < h2.rooms.len() implies (#[trigger] h2.rooms[i].members).no_duplicates() by {
            lemma_except(h.rooms[i].members, id);
        }
        assert forall|i: int, x: usize|
            0 <= i < h2.rooms.len() && (#[trigger] h2.rooms[i].members.contains(x))
            implies h2.sessions.contains(x) by {
            lemma_except(h.rooms[i].members, id);
            assert(x != id);
            assert(h.rooms[i].members.contains(x));
            assert(h.sessions.contains(x));
        }
        assert forall|i: int, j: int, x: usize|
            #![trigger h2.rooms[i].members.contains(x), h2.rooms[j].members.contains(x)]
            0 <= i < j < h2.rooms.len() implies !(h2.rooms[i].members.contains(x)
            && h2.rooms[j].members.contains(x)) by {
            if h2.rooms[i].members.contains(x) && h2.rooms[j].members.contains(x) {
                lemma_except(h.rooms[i].members, id);
                lemma_except(h.rooms[j].members, id);
                assert(h.rooms[i].members.contains(x));
                assert(h.rooms[j].members.contains(x));
            }
        }
        lemma_find_room_names(h2.rooms, h.rooms, main_room());
    }
}

/// Joining a room preserves the hub invariant.
pub proof fn lemma_join_wf(h: HubModel, id: usize, room: Seq<char>)
    requires
        h.wf(),
    ensures
        model_join(h, id, room).wf(),
{
    if h.sessions.contains(id) {
        let stripped = h.rooms.map_values(|r: RoomModel| strip_member(r, id));
        let t = find_room(h.rooms, room);
        lemma_find_room(h.rooms, room);
        let h2 = model_join(h, id, room);
        assert forall|i: int| 0 <= i < stripped.len() implies !(
        #[trigger] stripped[i].members.contains(id)) by {
            lemma_except(h.rooms[i].members, id);
        }
        if t >= 0 {
            assert forall|i: int| 0 <= i < h2.rooms.len() implies (#[trigger] h2.rooms[i]).name
                == h.rooms[i].name by {}
            assert forall|i: int| 0 <= i
                < h2.rooms.len() implies (#[trigger] h2.rooms[i].members).no_duplicates() by {
                lemma_except(h.rooms[i].members, id);
                if i == t {
                    lemma_push_no_dup(except(h.rooms[t].members, id), id);
                }
            }
            assert forall|i: int, x: usize|
                0 <= i < h2.rooms.len() && (#[trigger] h2.rooms[i].members.contains(x))
                implies h2.sessions.contains(x) by {
                lemma_except(h.rooms[i].members, id);
                if i == t && x == id {
                } else {
                    assert(except(h.rooms[i].members, id).contains(x));
                    assert(h.rooms[i].members.contains(x));
                }
            }
            assert forall|i: int, j: int, x: usize|
                #![trigger h2.rooms[i].members.contains(x), h2.rooms[j].members.contains(x)]
                0 <= i < j < h2.rooms.len() implies !(h2.rooms[i].members.contains(x)
                && h2.rooms[j].members.contains(x)) by {
                if h2.rooms[i].members.contains(x) && h2.rooms[j].members.contains(x) {
                    lemma_except(h.rooms[i].members, id);
                    lemma_except(h.rooms[j].members, id);
                    if x == id {
                        if i == t {
                            assert(stripped[j].members.contains(id));
                        } else if j == t {
                            assert(stripped[i].members.contains(id));
                        } else {
                            assert(stripped[i].members.contains(id));
                        }
                    } else {
                        assert(h.rooms[i].members.contains(x));
                        assert(h.rooms[j].members.contains(x));
                    }
                }
            }
            lemma_find_room_names(h2.rooms, h.rooms, main_room());
        } else {
            let newr = RoomModel { name: room, members: seq![id] };
            assert(h2.rooms == stripped.push(newr));
            assert forall|i: int| 0 <= i < stripped.len() implies (#[trigger] h2.rooms[i]).name
                == h.rooms[i].name by {}
            assert(seq![id].no_duplicates());
            assert forall|i: int| 0 <= i
                < h2.rooms.len() implies (#[trigger] h2.rooms[i].members).no_duplicates() by {
                if i < stripped.len() {
                    lemma_except(h.rooms[i].members, id);
                }
            }
            assert forall|i: int, x: usize|
                0 <= i < h2.rooms.len() && (#[trigger] h2.rooms[i].members.contains(x))
                implies h2.sessions.contains(x) by {
                if i < stripped.len() {
                    lemma_except(h.rooms[i].members, id);
                    assert(h.rooms[i].members.contains(x));
                } else {
                    assert(seq![id][0] == id);
                    assert(x == id);
                }
            }
            assert forall|i: int, j: int, x: usize|
                #![trigger h2.rooms[i].members.contains(x), h2.rooms[j].members.contains(x)]
                0 <= i < j < h2.rooms.len() implies !(h2.rooms[i].members.contains(x)
                && h2.rooms[j].members.contains(x)) by {
                if h2.rooms[i].members.contains(x) && h2.rooms[j].members.contains(x) {
                    if j == stripped.len() {
                        assert(x == id);
                        assert(stripped[i].members.contains(id));
                    } else {
                        lemma_except(h.rooms[i].members, id);
                        lemma_except(h.rooms[j].members, id);
                        if x == id {
                            assert(stripped[i].members.contains(id));
                        } else {
                            assert(h.rooms[i].members.contains(x));
                            assert(h.rooms[j].members.contains(x));
                        }
                    }
                }
            }
            assert forall|i: int, j: int|
                #![trigger h2.rooms[i].name, h2.rooms[j].name]
                0 <= i < j < h2.rooms.len() implies h2.rooms[i].name != h2.rooms[j].name by {
                if j == stripped.len() {
                    assert(h2.rooms[i].name == h.rooms[i].name);
                    assert(h.rooms[i].name != room);
                } else {
                    assert(h2.rooms[i].name == h.rooms[i].name);
                    assert(h2.rooms[j].name == h.rooms[j].name);
                }
            }
            lemma_find_room_names(stripped, h.rooms, main_room());
            lemma_find_room_push(stripped, newr, main_room());
        }
    }
}

/// Among the ids `0 ..= n` at least one is missing from any duplicate-free
/// sequence of length `n`, so a fresh id always exists.
proof fn lemma_le_set_len(n: usize)
    ensures
        Set::new(|j: usize| j <= n).finite(),
        Set::new(|j: usize| j <= n).len() == n as nat + 1,
    decreases n,
{
    let s = Set::new(|j: usize| j <= n);
    if n == 0 {
        assert(s =~= Set::<usize>::empty().insert(0));
    } else {
        let m = (n - 1) as usize;
        lemma_le_set_len(m);
        let sp = Set::new(|j: usize| j <= m);
        assert(s =~= sp.insert(n));
        assert(!sp.contains(n));
    }
}

struct Room {
    name: String,
    members: Vec<usize>,
}

impl Room {
    spec fn model(self) -> RoomModel {
        RoomModel { name: self.name@, members: self.members@ }
    }
}

/// The session registry: the single serialized owner of all session and
/// room state.
pub struct ChatServer {
    sessions: Vec<usize>,
    rooms: Vec<Room>,
}

impl View for ChatServer {
    type V = HubModel;

    closed spec fn view(&self) -> HubModel {
        HubModel {
            sessions: self.sessions@,
            rooms: self.rooms@.map_values(|r: Room| r.model()),
        }
    }
}

/// Relies on rand::random (rand 0.8): draws a value of the asked type from
/// the thread-local generator. Nothing is promised of the result; the hub
/// checks freshness itself.
pub assume_specification<T>[ rand::random::<T> ]() -> (r: T)
    where
        rand::distributions::Standard: rand::distributions::Distribution<T>,
;

/// Whether `v` holds `id`.
fn contains_id(v: &Vec<usize>, id: usize) -> (r: bool)
    ensures
        r == v@.contains(id),
{
    let n = v.len();
    let mut k: usize = 0;
    while k < n
        invariant
            n == v@.len(),
            k <= n,
            forall|j: int| 0 <= j < k ==> v@[j] != id,
        decreases n - k,
    {
        if v[k] == id {
            assert(v@[k as int] == id);
            return true;
        }
        k += 1;
    }
    false
}

/// `v` with every occurrence of `id` removed, order kept.
fn remove_id(v: &Vec<usize>, id: usize) -> (out: Vec<usize>)
    ensures
        out@ == except(v@, id),
{
    let n = v.len();
    let mut out: Vec<usize> = Vec::new();
    let mut k: usize = 0;
    while k < n
        invariant
            n == v@.len(),
            k <= n,
            out@ == except(v@.take(k as int), id),
        decreases n - k,
    {
        let m = v[k];
        if m != id {
            out.push(m);
        }
        proof {
            let pre = v@.take(k as int);
            let cur = v@.take(k + 1int);
            assert(cur.drop_last() =~= pre);
            assert(cur.last() == v@[k as int]);
        }
        k += 1;
    }
    proof {
        assert(v@.take(n as int) =~= v@);
    }
    out
}

/// Builds the deliveries of `text` to `members`, skipping `skip`.
fn fan_out(members: &Vec<usize>, skip: usize, text: &str) -> (ds: Vec<Delivery>)
    ensures
        deliveries_view(ds@) == fanout(members@, skip, text@),
{
    let n = members.len();
    let mut ds: Vec<Delivery> = Vec::new();
    let mut k: usize = 0;
    while k < n
        invariant
            n == members@.len(),
            k <= n,
            deliveries_view(ds@) == fanout(members@.take(k as int), skip, text@),
        decreases n - k,
    {
        let m = members[k];
        let ghost pre_ds = ds@;
        if m != skip {
            ds.push(Delivery { to: m, msg: Message(String::from_str(text)) });
        }
        proof {
            let pre = members@.take(k as int);
            let cur = members@.take(k + 1int);
            assert(cur.drop_last() =~= pre);
            assert(cur.last() == members@[k as int]);
            if m != skip {
                assert(deliveries_view(ds@) =~= deliveries_view(pre_ds).push(
                    (m, text@),
                ));
                assert(fanout(cur, skip, text@) =~= fanout(pre, skip, text@).push((m, text@)));
            } else {
                assert(fanout(cur, skip, text@) =~= fanout(pre, skip, text@));
            }
        }
        k += 1;
    }
    proof {
        assert(members@.take(n as int) =~= members@);
    }
    ds
}

impl ChatServer {
    /// Index of the room called `name`, as `find_room` sees it.
    fn find_room_index(&self, name: &str) -> (r: Option<usize>)
        ensures
            match r {
                Option::Some(i) => find_room(self@.rooms, name@) == i as int && (i as int)
                    < self@.rooms.len(),
                Option::None => find_room(self@.rooms, name@) == -1,
            },
    {
        let n = self.rooms.len();
        let mut k: usize = 0;
        while k < n
            invariant
                n == self.rooms@.len(),
                k <= n,
                self@.rooms == self.rooms@.map_values(|r: Room| r.model()),
                forall|j: int| 0 <= j < k ==> (#[trigger] self@.rooms[j]).name != name@,
            decreases n - k,
        {
            if crate::parser::str_eq(self.rooms[k].name.as_str(), name) {
                proof {
                    lemma_find_room(self@.rooms, name@);
                    assert(self@.rooms[k as int] == self.rooms@[k as int].model());
                    assert(self@.rooms[k as int].name == name@);
                }
                return Some(k);
            }
            proof {
                assert(self@.rooms[k as int] == self.rooms@[k as int].model());
            }
            k += 1;
        }
        proof {
            lemma_find_room(self@.rooms, name@);
        }
        None
    }

    /// The member list of `room`, empty if the room does not exist.
    pub fn room_members(&self, room: &str) -> (ms: Vec<usize>)
        ensures
            ms@ == self@.members_of(room@),
    {
        match self.find_room_index(room) {
            Some(i) => {
                proof {
                    assert(self@.rooms[i as int] == self.rooms@[i as int].model());
                }
                let src = &self.rooms[i].members;
                let n = src.len();
                let mut out: Vec<usize> = Vec::new();
                let mut k: usize = 0;
                while k < n
                    invariant
                        n == src@.len(),
                        k <= n,
                        out@ == src@.take(k as int),
                    decreases n - k,
                {
                    out.push(src[k]);
                    proof {
                        assert(src@.take(k + 1int) =~= src@.take(k as int).push(src@[k as int]));
                    }
                    k += 1;
                }
                proof {
                    assert(src@.take(n as int) =~= src@);
                }
                out
            },
            None => Vec::new(),
        }
    }

    /// All room names, in table order, empty rooms included.
    pub fn handle_list_rooms(&self, _msg: ListRooms) -> (names: Vec<String>)
        ensures
            names@.map_values(|s: String| s@) == self@.room_names(),
    {
        let n = self.rooms.len();
        let mut names: Vec<String> = Vec::new();
        let mut k: usize = 0;
        while k < n
            invariant
                n == self.rooms@.len(),
                k <= n,
                self@.rooms == self.rooms@.map_values(|r: Room| r.model()),
                names@.map_values(|s: String| s@) == self@.room_names().take(k as int),
            decreases n - k,
        {
            let ghost pre = names@;
            names.push(self.rooms[k].name.clone());
            proof {
                assert(names@.map_values(|s: String| s@) =~= pre.map_values(|s: String| s@).push(
                    self.rooms@[k as int].name@,
                ));
                assert(self@.room_names().take(k + 1int) =~= self@.room_names().take(
                    k as int,
                ).push(self@.rooms[k as int].name));
            }
            k += 1;
        }
        proof {
            assert(self@.room_names().take(n as int) =~= self@.room_names());
        }
        names
    }

    /// Delivers `msg` to every member of `room` except `skip_id`.
    fn send_message(&self, room: &str, msg: &str, skip_id: usize) -> (ds: Vec<Delivery>)
        ensures
            deliveries_view(ds@) == route_deliveries(self@, skip_id, room@, msg@),
    {
        match self.find_room_index(room) {
            Some(i) => {
                proof {
                    assert(self@.rooms[i as int] == self.rooms@[i as int].model());
                }
                fan_out(&self.rooms[i].members, skip_id, msg)
            },
            None => {
                let ds: Vec<Delivery> = Vec::new();
                proof {
                    assert(deliveries_view(ds@) =~= route_deliveries(self@, skip_id, room@, msg@));
                }
                ds
            },
        }
    }

    /// An id that is certainly not registered yet: the smallest unused one.
    fn fresh_id(&self) -> (id: usize)
        requires
            self@.wf(),
        ensures
            !self@.sessions.contains(id),
    {
        let n = self.sessions.len();
        let mut c: usize = 0;
        loop
            invariant
                self@.wf(),
                n == self.sessions@.len(),
                c <= n,
                self@.sessions == self.sessions@,
                forall|j: usize| j < c ==> #[trigger] self.sessions@.contains(j),
            decreases n - c,
        {
            if !contains_id(&self.sessions, c) {
                return c;
            }
            proof {
                if c == n {
                    let s = self.sessions@;
                    s.unique_seq_to_set();
                    vstd::seq_lib::seq_to_set_is_finite::<usize>(s);
                    let small = Set::new(|j: usize| j <= n);
                    lemma_le_set_len(n);
                    assert forall|x: usize| small.contains(x) implies s.to_set().contains(x) by {
                        assert(s.contains(x));
                    }
                    lemma_len_subset(small, s.to_set());
                    assert(false);
                }
            }
            c = c + 1;
        }
    }

    /// Removes `id` from every member set, returning the index of the room
    /// that held it, if any. Sessions are untouched.
    fn strip_rooms(&mut self, id: usize) -> (prev: Option<usize>)
        requires
            old(self)@.wf(),
        ensures
            final(self)@.sessions == old(self)@.sessions,
            final(self)@.rooms == old(self)@.rooms.map_values(
                |r: RoomModel| strip_member(r, id),
            ),
            match prev {
                Option::Some(p) => find_room_of(old(self)@.rooms, id) == p as int && (p as int)
                    < old(self)@.rooms.len(),
                Option::None => find_room_of(old(self)@.rooms, id) == -1,
            },
    {
        let n = self.rooms.len();
        let mut new_rooms: Vec<Room> = Vec::new();
        let mut prev: Option<usize> = None;
        let mut k: usize = 0;
        while k < n
            invariant
                old(self)@.wf(),
                n == self.rooms@.len(),
                k <= n,
                *self == *old(self),
                self@.rooms == self.rooms@.map_values(|r: Room| r.model()),
                new_rooms@.len() == k,
                forall|i: int|
                    0 <= i < k ==> (#[trigger] new_rooms@[i]).model() == strip_member(
                        self@.rooms[i],
                        id,
                    ),
                match prev {
                    Option::Some(p) => (p as int) < k && self@.rooms[p as int].members.contains(id)
                        && forall|j: int|
                        0 <= j < k && j != p as int ==> !(#[trigger] self@.rooms[j]).members.contains(
                            id,
                        ),
                    Option::None => forall|j: int|
                        0 <= j < k ==> !(#[trigger] self@.rooms[j]).members.contains(id),
                },
            decreases n - k,
        {
            proof {
                assert(self@.rooms[k as int] == self.rooms@[k as int].model());
            }
            let had = contains_id(&self.rooms[k].members, id);
            let stripped = remove_id(&self.rooms[k].members, id);
            let nm = self.rooms[k].name.clone();
            new_rooms.push(Room { name: nm, members: stripped });
            if had {
                proof {
                    if prev is Some {
                        let p = prev->0;
                        assert(self@.rooms[p as int].members.contains(id));
                        assert(self@.rooms[k as int].members.contains(id));
                        assert(false);
                    }
                }
                prev = Some(k);
            }
            k += 1;
        }
        self.rooms = new_rooms;
        proof {
            let h = old(self)@;
            assert(self@.rooms =~= h.rooms.map_values(|r: RoomModel| strip_member(r, id)));
            lemma_find_room_of(h.rooms, id);
        }
        prev
    }

    /// Registers a new connection: a fresh id enters the session table and
    /// the main room, and the main room's previous members are told.
    /// Never fails.
    pub fn handle_connect(&mut self, _msg: Connect) -> (r: (usize, Vec<Delivery>))
        requires
            old(self)@.wf(),
        ensures
            final(self)@.wf(),
            !old(self)@.sessions.contains(r.0),
            final(self)@ == model_connect(old(self)@, r.0),
            deliveries_view(r.1@) == connect_deliveries(old(self)@, r.0),
            forall|k: int| 0 <= k < r.1@.len() ==> (#[trigger] r.1@[k]).to != r.0,
    {
        let drawn: usize = rand::random::<usize>();
        let id: usize = if !contains_id(&self.sessions, drawn) {
            drawn
        } else {
            self.fresh_id()
        };
        let t = match self.find_room_index("Main") {
            Some(i) => i,
            None => {
                proof {
                    assert(false);
                }
                0
            },
        };
        proof {
            lemma_find_room(old(self)@.rooms, main_room());
            assert(self@.rooms[t as int] == self.rooms@[t as int].model());
        }
        let ds = fan_out(&self.rooms[t].members, id, "Someone joined lobby");
        self.sessions.push(id);
        let ghost rooms_before = self.rooms@;
        let mut r = self.rooms.remove(t);
        r.members.push(id);
        let ghost r2 = r;
        self.rooms.insert(t, r);
        proof {
            let h = old(self)@;
            let t0 = find_room(h.rooms, main_room());
            assert(self.rooms@ =~= rooms_before.update(t as int, r2));
            assert(r2.model() == RoomModel {
                name: h.rooms[t0].name,
                members: h.rooms[t0].members.push(id),
            });
            assert(self@.rooms =~= h.rooms.update(
                t0,
                RoomModel { name: h.rooms[t0].name, members: h.rooms[t0].members.push(id) },
            ));
            assert(self@ == model_connect(h, id));
            lemma_connect_wf(h, id);
            assert(h.members_of(main_room()) == h.rooms[t0].members);
            lemma_fanout_no_self(h.rooms[t0].members, id, "Someone joined lobby"@);
            assert forall|k: int| 0 <= k < ds@.len() implies (#[trigger] ds@[k]).to != id by {
                assert(deliveries_view(ds@)[k].0 == ds@[k].to);
            }
        }
        (id, ds)
    }

    /// Deregisters `id`: it leaves the session table and its room, whose
    /// remaining members are told. Idempotent: an absent id is a no-op.
    pub fn handle_disconnect(&mut self, msg: Disconnect) -> (ds: Vec<Delivery>)
        requires
            old(self)@.wf(),
        ensures
            final(self)@.wf(),
            final(self)@ == model_disconnect(old(self)@, msg.id),
            deliveries_view(ds@) == disconnect_deliveries(old(self)@, msg.id),
            !final(self)@.sessions.contains(msg.id),
            !old(self)@.sessions.contains(msg.id) ==> final(self)@ == old(self)@ && ds@.len()
                == 0,
            forall|k: int| 0 <= k < ds@.len() ==> (#[trigger] ds@[k]).to != msg.id,
    {
        if !contains_id(&self.sessions, msg.id) {
            let ds: Vec<Delivery> = Vec::new();
            proof {
                assert(deliveries_view(ds@) =~= disconnect_deliveries(old(self)@, msg.id));
            }
            return ds;
        }
        let prev = self.strip_rooms(msg.id);
        let new_sessions = remove_id(&self.sessions, msg.id);
        self.sessions = new_sessions;
        let ds = match prev {
            Some(i) => {
                proof {
                    assert(self@.rooms == old(self)@.rooms.map_values(
                        |r: RoomModel| strip_member(r, msg.id),
                    ));
                    assert(self@.rooms.len() == old(self)@.rooms.len());
                    assert((i as int) < self.rooms@.len());
                    assert(self@.rooms[i as int] == self.rooms@[i as int].model());
                    assert(self@.rooms[i as int].members == except(
                        old(self)@.rooms[i as int].members,
                        msg.id,
                    ));
                }
                fan_out(&self.rooms[i].members, msg.id, "Someone disconnected")
            },
            None => {
                let e: Vec<Delivery> = Vec::new();
                proof {
                    assert(deliveries_view(e@) =~= disconnect_deliveries(old(self)@, msg.id));
                }
                e
            },
        };
        proof {
            let h = old(self)@;
            assert(self@ == model_disconnect(h, msg.id));
            lemma_disconnect_wf(h, msg.id);
            lemma_except(h.sessions, msg.id);
            let p = find_room_of(h.rooms, msg.id);
            if p >= 0 {
                lemma_find_room_of(h.rooms, msg.id);
                lemma_fanout_no_self(except(h.rooms[p].members, msg.id), msg.id,
                    "Someone disconnected"@);
                assert forall|k: int| 0 <= k < ds@.len() implies (#[trigger] ds@[k]).to
                    != msg.id by {
                    assert(deliveries_view(ds@)[k].0 == ds@[k].to);
                }
            } else {
                assert(deliveries_view(ds@).len() == 0);
            }
        }
        ds
    }

    /// Moves `id` out of its room and into `room`, creating the latter on
    /// first use; both rooms are told. Unknown ids are ignored.
    pub fn handle_join(&mut self, msg: Join) -> (ds: Vec<Delivery>)
        requires
            old(self)@.wf(),
        ensures
            final(self)@.wf(),
            final(self)@ == model_join(old(self)@, msg.id, msg.room@),
            deliveries_view(ds@) == join_deliveries(old(self)@, msg.id, msg.room@),
            forall|k: int| 0 <= k < ds@.len() ==> (#[trigger] ds@[k]).to != msg.id,
    {
        if !contains_id(&self.sessions, msg.id) {
            let ds: Vec<Delivery> = Vec::new();
            proof {
                assert(deliveries_view(ds@) =~= join_deliveries(old(self)@, msg.id, msg.room@));
            }
            return ds;
        }
        let ghost h = self@;
        let ghost stripped = h.rooms.map_values(|r: RoomModel| strip_member(r, msg.id));
        let prev = self.strip_rooms(msg.id);
        let d1 = match prev {
            Some(i) => {
                proof {
                    assert(self@.rooms == stripped);
                    assert(self@.rooms.len() == h.rooms.len());
                    assert((i as int) < self.rooms@.len());
                    assert(self@.rooms[i as int] == self.rooms@[i as int].model());
                }
                fan_out(&self.rooms[i].members, msg.id, "Someone left")
            },
            None => Vec::new(),
        };
        proof {
            assert forall|i: int| 0 <= i < self@.rooms.len() implies (#[trigger] self@.rooms[i]).name
                == h.rooms[i].name by {}
            lemma_find_room_names(self@.rooms, h.rooms, msg.room@);
        }
        let t = match self.find_room_index(msg.room.as_str()) {
            Some(i) => i,
            None => {
                let nm = msg.room.clone();
                self.rooms.push(Room { name: nm, members: Vec::new() });
                proof {
                    assert(self@.rooms =~= stripped.push(
                        RoomModel { name: msg.room@, members: Seq::<usize>::empty() },
                    ));
                }
                self.rooms.len() - 1
            },
        };
        proof {
            assert(self@.rooms[t as int] == self.rooms@[t as int].model());
        }
        let d2 = fan_out(&self.rooms[t].members, msg.id, "Someone joined");
        let ghost rooms_mid = self.rooms@;
        let mut r = self.rooms.remove(t);
        r.members.push(msg.id);
        let ghost r2 = r;
        self.rooms.insert(t, r);
        let mut ds = d1;
        let mut d2m = d2;
        let ghost d1v = ds@;
        let ghost d2v = d2m@;
        ds.append(&mut d2m);
        proof {
            let t0 = find_room(h.rooms, msg.room@);
            assert(self.rooms@ =~= rooms_mid.update(t as int, r2));
            if t0 >= 0 {
                assert(r2.model() == RoomModel {
                    name: h.rooms[t0].name,
                    members: except(h.rooms[t0].members, msg.id).push(msg.id),
                });
                assert(self@.rooms =~= model_join(h, msg.id, msg.room@).rooms);
            } else {
                assert(Seq::<usize>::empty().push(msg.id) =~= seq![msg.id]);
                assert(r2.model() == RoomModel { name: msg.room@, members: seq![msg.id] });
                assert(self@.rooms =~= model_join(h, msg.id, msg.room@).rooms);
            }
            assert(self@ == model_join(h, msg.id, msg.room@));
            lemma_join_wf(h, msg.id, msg.room@);
            // the two delivery lists concatenate to the model's list
            let p = find_room_of(h.rooms, msg.id);
            let jd = join_deliveries(h, msg.id, msg.room@);
            assert(deliveries_view(ds@) =~= deliveries_view(d1v) + deliveries_view(d2v));
            assert(deliveries_view(ds@) =~= jd);
            if p >= 0 {
                lemma_fanout_no_self(except(h.rooms[p].members, msg.id), msg.id, "Someone left"@);
            }
            if t0 >= 0 {
                lemma_fanout_no_self(except(h.rooms[t0].members, msg.id), msg.id,
                    "Someone joined"@);
            } else {
                lemma_fanout_no_self(Seq::<usize>::empty(), msg.id, "Someone joined"@);
            }
            assert forall|k: int| 0 <= k < ds@.len() implies (#[trigger] ds@[k]).to != msg.id by {
                assert(deliveries_view(ds@)[k].0 == ds@[k].to);
                if k < deliveries_view(d1v).len() {
                    assert(deliveries_view(ds@)[k] == deliveries_view(d1v)[k]);
                } else {
                    assert(deliveries_view(ds@)[k] == deliveries_view(d2v)[k - d1v.len()]);
                }
            }
        }
        ds
    }

    /// Relays a client message to the sender's room; the sender gets
    /// nothing back (no self-echo).
    pub fn handle_client_message(&self, msg: ClientMessage) -> (ds: Vec<Delivery>)
        ensures
            deliveries_view(ds@) == route_deliveries(self@, msg.id, msg.room@, msg.msg@),
            forall|k: int| 0 <= k < ds@.len() ==> (#[trigger] ds@[k]).to != msg.id,
    {
        let ds = self.send_message(msg.room.as_str(), msg.msg.as_str(), msg.id);
        proof {
            let t = find_room(self@.rooms, msg.room@);
            if t >= 0 {
                lemma_find_room(self@.rooms, msg.room@);
                lemma_fanout_no_self(self@.rooms[t].members, msg.id, msg.msg@);
                assert forall|k: int| 0 <= k < ds@.len() implies (#[trigger] ds@[k]).to
                    != msg.id by {
                    assert(deliveries_view(ds@)[k].0 == ds@[k].to);
                }
            } else {
                assert(deliveries_view(ds@).len() == 0);
                assert(ds@.len() == 0);
            }
        }
        ds
    }
}

impl Default for ChatServer {
    /// An empty hub holding only the empty main room.
    fn default() -> (s: ChatServer)
        ensures
            s@.wf(),
            s@.sessions == Seq::<usize>::empty(),
            s@.rooms == seq![RoomModel { name: main_room(), members: Seq::<usize>::empty() }],
    {
        let mut rooms: Vec<Room> = Vec::new();
        rooms.push(Room { name: String::from_str("Main"), members: Vec::new() });
        let s = ChatServer { sessions: Vec::new(), rooms };
        proof {
            assert(s@.rooms =~= seq![
                RoomModel { name: main_room(), members: Seq::<usize>::empty() },
            ]);
            assert(find_room(s@.rooms, main_room()) == 0);
        }
        s
    }
}

} // verus!
