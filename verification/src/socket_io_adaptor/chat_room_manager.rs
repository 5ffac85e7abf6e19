//! The room registry: room id to member set and connection id to joined
//! rooms, kept mutually consistent, with rooms deleted as their last member
//! leaves.

use vstd::prelude::*;

use crate::socket_io_adaptor::str_map::{
    clone_str_vec, distinct_strs, push_unique, remove_str, str_set, strs, StrMap,
};

verus! {

/// A room: the set of connection ids currently joined, each at most once.
pub struct Room {
    sockets: Vec<String>,
}

impl Room {
    /// The member ids, in join order.
    pub closed spec fn socket_seq(self) -> Seq<String> {
        self.sockets@
    }

    pub open spec fn wf(self) -> bool {
        distinct_strs(self.socket_seq())
    }
}

impl View for Room {
    type V = Set<Seq<char>>;

    open spec fn view(&self) -> Set<Seq<char>> {
        str_set(self.socket_seq())
    }
}

impl Room {
    pub fn new() -> (r: Self)
        ensures
            r.wf(),
            r@ == Set::<Seq<char>>::empty(),
    {
        let r = Room { sockets: Vec::new() };
        proof {
            assert(r@ =~= Set::<Seq<char>>::empty());
        }
        r
    }

    /// Joins `sid` (no effect when already a member).
    pub fn add(&mut self, sid: &str)
        requires
            old(self).wf(),
        ensures
            final(self).wf(),
            final(self)@ == old(self)@.insert(sid@),
    {
        push_unique(&mut self.sockets, sid);
    }

    /// Removes `sid`; returns whether it was a member.
    pub fn delete(&mut self, sid: &str) -> (r: bool)
        requires
            old(self).wf(),
        ensures
            final(self).wf(),
            final(self)@ == old(self)@.remove(sid@),
            r == old(self)@.contains(sid@),
    {
        remove_str(&mut self.sockets, sid)
    }

    /// How many members the room has.
    pub fn length(&self) -> (r: usize)
        requires
            self.wf(),
        ensures
            r == self@.len(),
    {
        proof {
            assert(strs(self.socket_seq()).no_duplicates());
            strs(self.socket_seq()).unique_seq_to_set();
        }
        self.sockets.len()
    }
}

/// The mathematical state of a room registry: both directions of the
/// membership relation.
pub ghost struct RoomsView {
    pub rooms: Map<Seq<char>, Set<Seq<char>>>,
    pub sids: Map<Seq<char>, Set<Seq<char>>>,
}

/// The registry with no connections and no rooms.
pub open spec fn empty_view() -> RoomsView {
    RoomsView { rooms: Map::empty(), sids: Map::empty() }
}

/// Whether `sid` is a member of `room` in the rooms table.
pub open spec fn room_has(v: RoomsView, room: Seq<char>, sid: Seq<char>) -> bool {
    v.rooms.contains_key(room) && v.rooms[room].contains(sid)
}

/// Whether `room` is among the joined rooms of `sid` in the connection
/// index.
pub open spec fn sid_has(v: RoomsView, sid: Seq<char>, room: Seq<char>) -> bool {
    v.sids.contains_key(sid) && v.sids[sid].contains(room)
}

/// The registry invariant: both tables are finite, no room is empty, and
/// the two directions of the membership relation agree.
pub open spec fn view_wf(v: RoomsView) -> bool {
    &&& v.rooms.dom().finite()
    &&& v.sids.dom().finite()
    &&& forall|r: Seq<char>|
        v.rooms.contains_key(r) ==> (#[trigger] v.rooms[r]).finite() && v.rooms[r].len() > 0
    &&& forall|s: Seq<char>| v.sids.contains_key(s) ==> (#[trigger] v.sids[s]).finite()
    &&& forall|r: Seq<char>, s: Seq<char>| #[trigger] room_has(v, r, s) ==> sid_has(v, s, r)
    &&& forall|r: Seq<char>, s: Seq<char>| #[trigger] sid_has(v, s, r) ==> room_has(v, r, s)
}

/// The members of a room; unknown rooms have none.
pub open spec fn room_members(v: RoomsView, room: Seq<char>) -> Set<Seq<char>> {
    if v.rooms.contains_key(room) {
        v.rooms[room]
    } else {
        Set::empty()
    }
}

/// The joined rooms of a connection; unknown connections have none.
pub open spec fn sid_rooms(v: RoomsView, sid: Seq<char>) -> Set<Seq<char>> {
    if v.sids.contains_key(sid) {
        v.sids[sid]
    } else {
        Set::empty()
    }
}

/// What joining one room does to the registry.
pub open spec fn join_effect(v: RoomsView, sid: Seq<char>, room: Seq<char>) -> RoomsView {
    RoomsView {
        rooms: v.rooms.insert(room, room_members(v, room).insert(sid)),
        sids: v.sids.insert(sid, sid_rooms(v, sid).insert(room)),
    }
}

/// What joining each room of a list in turn does to the registry.
pub open spec fn join_all_effect(v: RoomsView, sid: Seq<char>, rooms: Seq<Seq<char>>) -> RoomsView
    decreases rooms.len(),
{
    if rooms.len() == 0 {
        v
    } else {
        join_effect(join_all_effect(v, sid, rooms.drop_last()), sid, rooms.last())
    }
}

/// What leaving one room does to the room table alone: the member leaves,
/// and a room left empty is deleted. Leaving a room one is not in changes
/// nothing.
pub open spec fn rooms_side_leave(
    rm: Map<Seq<char>, Set<Seq<char>>>,
    sid: Seq<char>,
    room: Seq<char>,
) -> Map<Seq<char>, Set<Seq<char>>> {
    if rm.contains_key(room) {
        if rm[room].remove(sid).is_empty() {
            rm.remove(room)
        } else {
            rm.insert(room, rm[room].remove(sid))
        }
    } else {
        rm
    }
}

/// What leaving one room does to the registry.
pub open spec fn leave_effect(v: RoomsView, sid: Seq<char>, room: Seq<char>) -> RoomsView {
    RoomsView {
        rooms: rooms_side_leave(v.rooms, sid, room),
        sids: if v.sids.contains_key(sid) {
            v.sids.insert(sid, v.sids[sid].remove(room))
        } else {
            v.sids
        },
    }
}

/// What removing a connection does to the registry: it leaves every room
/// (rooms left empty are deleted) and its connection-index entry goes away.
pub open spec fn remove_all_effect(v: RoomsView, sid: Seq<char>) -> RoomsView {
    RoomsView {
        rooms: Map::new(
            |r: Seq<char>| v.rooms.contains_key(r) && !v.rooms[r].remove(sid).is_empty(),
            |r: Seq<char>| v.rooms[r].remove(sid),
        ),
        sids: v.sids.remove(sid),
    }
}

/// The connections in any of the given rooms.
pub open spec fn resolve_spec(v: RoomsView, rooms: Seq<Seq<char>>) -> Set<Seq<char>> {
    Set::new(
        |sid: Seq<char>|
            exists|i: int| 0 <= i < rooms.len() && (#[trigger] room_members(v, rooms[i])).contains(
                sid,
            ),
    )
}

/// Joining preserves the registry invariant.
pub proof fn lemma_join_effect_wf(v: RoomsView, sid: Seq<char>, room: Seq<char>)
    requires
        view_wf(v),
    ensures
        view_wf(join_effect(v, sid, room)),
{
    let w = join_effect(v, sid, room);
    assert forall|r: Seq<char>, s: Seq<char>| #[trigger] room_has(w, r, s) implies sid_has(
        w,
        s,
        r,
    ) by {
        if r == room && s == sid {
        } else if r == room {
            if v.rooms[room].contains(s) {
                assert(room_has(v, r, s));
            }
        } else {
            assert(room_has(v, r, s));
        }
    }
    assert forall|r: Seq<char>, s: Seq<char>| #[trigger] sid_has(w, s, r) implies room_has(
        w,
        r,
        s,
    ) by {
        if s == sid && r == room {
        } else if s == sid {
            if v.sids.contains_key(sid) && v.sids[sid].contains(r) {
                assert(sid_has(v, s, r));
            }
        } else {
            assert(sid_has(v, s, r));
        }
    }
}

/// Leaving preserves the registry invariant.
pub proof fn lemma_leave_effect_wf(v: RoomsView, sid: Seq<char>, room: Seq<char>)
    requires
        view_wf(v),
    ensures
        view_wf(leave_effect(v, sid, room)),
{
    let w = leave_effect(v, sid, room);
    assert forall|r: Seq<char>|
        w.rooms.contains_key(r) implies (#[trigger] w.rooms[r]).finite() && w.rooms[r].len()
        > 0 by {
        if r == room && v.rooms.contains_key(room) {
            let rem = v.rooms[room].remove(sid);
            if !rem.is_empty() {
                let x = rem.choose();
                assert(rem.contains(x));
                if rem.len() == 0 {
                    rem.lemma_len0_is_empty();
                }
            }
        }
    }
    assert forall|r: Seq<char>, s: Seq<char>| #[trigger] room_has(w, r, s) implies sid_has(
        w,
        s,
        r,
    ) by {
        assert(room_has(v, r, s));
        assert(!(r == room && s == sid));
    }
    assert forall|r: Seq<char>, s: Seq<char>| #[trigger] sid_has(w, s, r) implies room_has(
        w,
        r,
        s,
    ) by {
        assert(sid_has(v, s, r));
        assert(!(s == sid && r == room));
        assert(room_has(v, r, s));
        if r == room {
            assert(s != sid);
            assert(v.rooms[room].remove(sid).contains(s));
            assert(!v.rooms[room].remove(sid).is_empty());
        }
    }
}

/// Removing a connection preserves the registry invariant.
pub proof fn lemma_remove_all_effect_wf(v: RoomsView, sid: Seq<char>)
    requires
        view_wf(v),
    ensures
        view_wf(remove_all_effect(v, sid)),
{
    let w = remove_all_effect(v, sid);
    assert(w.rooms.dom().finite()) by {
        assert(w.rooms.dom() <= v.rooms.dom());
        vstd::set_lib::lemma_len_subset(w.rooms.dom(), v.rooms.dom());
    }
    assert forall|r: Seq<char>|
        w.rooms.contains_key(r) implies (#[trigger] w.rooms[r]).finite() && w.rooms[r].len()
        > 0 by {
        let rem = v.rooms[r].remove(sid);
        if rem.len() == 0 {
            rem.lemma_len0_is_empty();
        }
    }
    assert forall|r: Seq<char>, s: Seq<char>| #[trigger] room_has(w, r, s) implies sid_has(
        w,
        s,
        r,
    ) by {
        assert(s != sid);
        assert(room_has(v, r, s));
    }
    assert forall|r: Seq<char>, s: Seq<char>| #[trigger] sid_has(w, s, r) implies room_has(
        w,
        r,
        s,
    ) by {
        assert(s != sid);
        assert(sid_has(v, s, r));
        assert(room_has(v, r, s));
        assert(v.rooms[r].remove(sid).contains(s));
        assert(!v.rooms[r].remove(sid).is_empty());
    }
}

/// Room auto-deletion: when a room's last member leaves it, the room is
/// gone from the registry.
pub proof fn lemma_room_auto_deletion(v: RoomsView, sid: Seq<char>, room: Seq<char>)
    requires
        view_wf(v),
        v.rooms.contains_key(room),
        v.rooms[room] == set![sid],
    ensures
        !leave_effect(v, sid, room).rooms.contains_key(room),
{
    assert(v.rooms[room].remove(sid) =~= Set::<Seq<char>>::empty());
}

/// Resolving a single room gives exactly its members.
pub proof fn lemma_resolve_single(v: RoomsView, room: Seq<char>)
    ensures
        resolve_spec(v, seq![room]) == room_members(v, room),
{
    assert forall|x: Seq<char>|
        resolve_spec(v, seq![room]).contains(x) == room_members(v, room).contains(x) by {
        if room_members(v, room).contains(x) {
            assert(seq![room][0] == room);
            assert(room_members(v, seq![room][0]).contains(x));
        }
    }
    assert(resolve_spec(v, seq![room]) =~= room_members(v, room));
}

/// Resolving one more room adds exactly that room's members.
pub proof fn lemma_resolve_step(v: RoomsView, rooms: Seq<Seq<char>>, i: int)
    requires
        0 <= i < rooms.len(),
    ensures
        resolve_spec(v, rooms.subrange(0, i + 1)) == resolve_spec(v, rooms.subrange(0, i)).union(
            room_members(v, rooms[i]),
        ),
{
    let a = rooms.subrange(0, i);
    let b = rooms.subrange(0, i + 1);
    assert forall|x: Seq<char>|
        resolve_spec(v, b).contains(x) == (resolve_spec(v, a).contains(x) || room_members(
            v,
            rooms[i],
        ).contains(x)) by {
        if resolve_spec(v, b).contains(x) {
            let j = choose|j: int| 0 <= j < b.len() && room_members(v, b[j]).contains(x);
            if j < i {
                assert(a[j] == b[j]);
                assert(room_members(v, a[j]).contains(x));
            } else {
                assert(b[j] == rooms[i]);
            }
        }
        if resolve_spec(v, a).contains(x) {
            let j = choose|j: int| 0 <= j < a.len() && room_members(v, a[j]).contains(x);
            assert(b[j] == a[j]);
            assert(room_members(v, b[j]).contains(x));
        }
        if room_members(v, rooms[i]).contains(x) {
            assert(b[i] == rooms[i]);
            assert(room_members(v, b[i]).contains(x));
        }
    }
    assert(resolve_spec(v, b) =~= resolve_spec(v, a).union(room_members(v, rooms[i])));
}

/// Membership after joins and a removal: two connections join a room (each
/// also sitting in its self-named room); the room then resolves to both.
/// After the first connection is removed, the room resolves to the second
/// alone and the removed connection's self-room is gone.
pub proof fn lemma_membership_after_removal(a: Seq<char>, b: Seq<char>, r: Seq<char>)
    requires
        a != b,
        r != a,
    ensures
        ({
            let v1 = join_effect(
                join_effect(join_effect(join_effect(empty_view(), a, a), b, b), a, r),
                b,
                r,
            );
            let v2 = remove_all_effect(v1, a);
            &&& resolve_spec(v1, seq![r]) == set![a, b]
            &&& resolve_spec(v2, seq![r]) == set![b]
            &&& resolve_spec(v2, seq![a]) == Set::<Seq<char>>::empty()
        }),
{
    let v0 = empty_view();
    let va = join_effect(v0, a, a);
    let vb = join_effect(va, b, b);
    let vc = join_effect(vb, a, r);
    let v1 = join_effect(vc, b, r);
    let v2 = remove_all_effect(v1, a);
    assert(room_members(va, a) =~= set![a]);
    assert(room_members(vb, a) =~= set![a]);
    assert(room_members(v1, r) =~= set![a, b]) by {
        if r == b {
            assert(room_members(vb, r) =~= set![b]);
            assert(room_members(vc, r) =~= set![b, a]);
            assert(room_members(v1, r) =~= set![b, a]);
        } else {
            assert(room_members(vb, r) =~= Set::<Seq<char>>::empty());
            assert(room_members(vc, r) =~= set![a]);
        }
    }
    lemma_resolve_single(v1, r);
    assert(resolve_spec(v1, seq![r]) =~= set![a, b]);
    assert(room_members(v2, r) =~= set![b]) by {
        assert(v1.rooms[r].remove(a) =~= set![b]);
        assert(!v1.rooms[r].remove(a).is_empty());
    }
    lemma_resolve_single(v2, r);
    assert(resolve_spec(v2, seq![r]) =~= set![b]);
    assert(room_members(v1, a) =~= set![a]) by {
        assert(v1.rooms[a] == vc.rooms[a]);
        assert(vc.rooms[a] == vb.rooms[a]);
    }
    assert(room_members(v2, a) =~= Set::<Seq<char>>::empty()) by {
        assert(v1.rooms[a].remove(a) =~= Set::<Seq<char>>::empty());
        assert(!v2.rooms.contains_key(a));
    }
    lemma_resolve_single(v2, a);
    assert(resolve_spec(v2, seq![a]) =~= Set::<Seq<char>>::empty());
}

/// Removing a connection twice has the same effect as removing it once.
pub proof fn lemma_remove_connection_idempotent(v: RoomsView, sid: Seq<char>)
    ensures
        remove_all_effect(remove_all_effect(v, sid), sid) == remove_all_effect(v, sid),
{
    let w = remove_all_effect(v, sid);
    let w2 = remove_all_effect(w, sid);
    assert forall|r: Seq<char>| w.rooms.contains_key(r) implies (#[trigger] w.rooms[r]).remove(sid)
        =~= w.rooms[r] by {
        assert(!w.rooms[r].contains(sid));
    }
    assert(w2.rooms =~= w.rooms) by {
        assert forall|r: Seq<char>|
            w2.rooms.contains_key(r) == w.rooms.contains_key(r) by {
            if w.rooms.contains_key(r) {
                assert(w.rooms[r].remove(sid) =~= w.rooms[r]);
            }
        }
        assert forall|r: Seq<char>| w2.rooms.contains_key(r) implies w2.rooms[r] == w.rooms[r] by {
            assert(w.rooms[r].remove(sid) =~= w.rooms[r]);
        }
    }
    assert(w2.sids =~= w.sids);
    assert(w2 == w);
}

/// The room table as a map of member sets.
pub open spec fn room_view_map(m: Map<Seq<char>, Room>) -> Map<Seq<char>, Set<Seq<char>>> {
    Map::new(|k: Seq<char>| m.contains_key(k), |k: Seq<char>| m[k]@)
}

/// The connection index as a map of room sets.
pub open spec fn sid_view_map(m: Map<Seq<char>, Vec<String>>) -> Map<Seq<char>, Set<Seq<char>>> {
    Map::new(|k: Seq<char>| m.contains_key(k), |k: Seq<char>| str_set(m[k]@))
}

proof fn lemma_rvm_insert(m: Map<Seq<char>, Room>, k: Seq<char>, a: Room)
    ensures
        room_view_map(m.insert(k, a)) == room_view_map(m).insert(k, a@),
{
    assert(room_view_map(m.insert(k, a)) =~= room_view_map(m).insert(k, a@));
}

proof fn lemma_rvm_remove(m: Map<Seq<char>, Room>, k: Seq<char>)
    ensures
        room_view_map(m.remove(k)) == room_view_map(m).remove(k),
{
    assert(room_view_map(m.remove(k)) =~= room_view_map(m).remove(k));
}

proof fn lemma_svm_insert(m: Map<Seq<char>, Vec<String>>, k: Seq<char>, a: Vec<String>)
    ensures
        sid_view_map(m.insert(k, a)) == sid_view_map(m).insert(k, str_set(a@)),
{
    assert(sid_view_map(m.insert(k, a)) =~= sid_view_map(m).insert(k, str_set(a@)));
}

proof fn lemma_svm_remove(m: Map<Seq<char>, Vec<String>>, k: Seq<char>)
    ensures
        sid_view_map(m.remove(k)) == sid_view_map(m).remove(k),
{
    assert(sid_view_map(m.remove(k)) =~= sid_view_map(m).remove(k));
}

/// The room registry of one namespace: a room table and a connection
/// index, mutated together so that the two stay consistent.
pub struct ChatRoomManager {
    rooms: StrMap<Room>,
    sids: StrMap<Vec<String>>,
}

impl View for ChatRoomManager {
    type V = RoomsView;

    closed spec fn view(&self) -> RoomsView {
        RoomsView { rooms: room_view_map(self.rooms@), sids: sid_view_map(self.sids@) }
    }
}

impl ChatRoomManager {
    /// The registry invariant: well-formed tables on both sides and the
    /// mutual-consistency property of the view.
    pub closed spec fn wf(self) -> bool {
        &&& self.rooms.wf()
        &&& self.sids.wf()
        &&& forall|k: Seq<char>| self.rooms@.contains_key(k) ==> (#[trigger] self.rooms@[k]).wf()
        &&& forall|k: Seq<char>|
            self.sids@.contains_key(k) ==> distinct_strs((#[trigger] self.sids@[k])@)
        &&& view_wf(self@)
    }

    pub fn new() -> (r: Self)
        ensures
            r.wf(),
            r@ == empty_view(),
    {
        let r = ChatRoomManager { rooms: StrMap::new(), sids: StrMap::new() };
        proof {
            assert(room_view_map(r.rooms@) =~= Map::<Seq<char>, Set<Seq<char>>>::empty());
            assert(sid_view_map(r.sids@) =~= Map::<Seq<char>, Set<Seq<char>>>::empty());
            assert(r@ == empty_view());
        }
        r
    }

    /// Joins `id` to one room.
    pub fn add(&mut self, id: &str, room_id: &str)
        requires
            old(self).wf(),
        ensures
            final(self).wf(),
            final(self)@ == join_effect(old(self)@, id@, room_id@),
    {
        let rooms_vec: Vec<&str> = vec![room_id];
        let ghost rs = rooms_vec.deep_view();
        self.add_all(id, rooms_vec);
        proof {
            assert(rs.len() == 1 && rs[0] == room_id@);
            assert(rs.last() == room_id@);
            assert(rs.drop_last().len() == 0);
            assert(join_all_effect(old(self)@, id@, rs.drop_last()) == old(self)@);
            assert(join_all_effect(old(self)@, id@, rs) == join_effect(old(self)@, id@, room_id@));
        }
    }

    /// Joins `id` to each room of a list in turn.
    pub fn add_all(&mut self, id: &str, room_ids: Vec<&str>)
        requires
            old(self).wf(),
        ensures
            final(self).wf(),
            final(self)@ == join_all_effect(old(self)@, id@, room_ids.deep_view()),
    {
        let ghost all = room_ids.deep_view();
        let n = room_ids.len();
        let mut i: usize = 0;
        while i < n
            invariant
                0 <= i <= n,
                n == all.len(),
                all == room_ids.deep_view(),
                n == room_ids@.len(),
                self.wf(),
                self@ == join_all_effect(old(self)@, id@, all.subrange(0, i as int)),
            decreases n - i,
        {
            let room_id: &str = room_ids[i];
            proof {
                assert(all[i as int] == room_id@);
            }
            let ghost prev = *self;
            // Connection-index side: record the room under `id`.
            let mut cur: Vec<String> = match self.sids.remove(id) {
                Some(v) => v,
                None => Vec::new(),
            };
            proof {
                assert(distinct_strs(cur@));
                assert(str_set(cur@) == sid_rooms(prev@, id@)) by {
                    if prev.sids@.contains_key(id@) {
                    } else {
                        assert(str_set(cur@) =~= Set::<Seq<char>>::empty());
                    }
                }
            }
            push_unique(&mut cur, room_id);
            let ghost curset = str_set(cur@);
            self.sids.insert(id, cur);
            // Room-table side: record `id` under the room.
            let mut room: Room = match self.rooms.remove(room_id) {
                Some(rm) => rm,
                None => Room::new(),
            };
            proof {
                assert(room.wf());
                assert(room@ == room_members(prev@, room_id@)) by {
                    if prev.rooms@.contains_key(room_id@) {
                    } else {
                        assert(room@ =~= Set::<Seq<char>>::empty());
                    }
                }
            }
            room.add(id);
            let ghost roomset = room@;
            self.rooms.insert(room_id, room);
            proof {
                // The view took one `join_effect` step.
                lemma_svm_insert(prev.sids@.remove(id@), id@, cur);
                lemma_svm_remove(prev.sids@, id@);
                lemma_rvm_insert(prev.rooms@.remove(room_id@), room_id@, room);
                lemma_rvm_remove(prev.rooms@, room_id@);
                assert(self@.sids =~= prev@.sids.insert(id@, curset));
                assert(self@.rooms =~= prev@.rooms.insert(room_id@, roomset));
                assert(curset == sid_rooms(prev@, id@).insert(room_id@));
                assert(roomset == room_members(prev@, room_id@).insert(id@));
                assert(self@ == join_effect(prev@, id@, room_id@));
                lemma_join_effect_wf(prev@, id@, room_id@);
                // Structural side of the invariant.
                assert(forall|k: Seq<char>|
                    self.rooms@.contains_key(k) ==> (#[trigger] self.rooms@[k]).wf());
                assert(forall|k: Seq<char>|
                    self.sids@.contains_key(k) ==> distinct_strs((#[trigger] self.sids@[k])@));
                // The fold over the list advanced by one room.
                assert(all.subrange(0, i + 1).drop_last() =~= all.subrange(0, i as int));
                assert(all.subrange(0, i + 1).last() == all[i as int]);
                assert(join_all_effect(old(self)@, id@, all.subrange(0, i + 1)) == join_effect(
                    join_all_effect(old(self)@, id@, all.subrange(0, i as int)),
                    id@,
                    all[i as int],
                ));
            }
            i += 1;
        }
        proof {
            assert(all.subrange(0, n as int) =~= all);
        }
    }

    /// Takes `id` out of one room of the room table, deleting the room if
    /// it becomes empty.
    fn remove_id_from_room(rooms: &mut StrMap<Room>, id: &str, room_id: &str)
        requires
            old(rooms).wf(),
            forall|k: Seq<char>| old(rooms)@.contains_key(k) ==> (#[trigger] old(rooms)@[k]).wf(),
        ensures
            final(rooms).wf(),
            forall|k: Seq<char>| final(rooms)@.contains_key(k) ==> (#[trigger] final(rooms)@[k]).wf(),
            room_view_map(final(rooms)@) == rooms_side_leave(
                room_view_map(old(rooms)@),
                id@,
                room_id@,
            ),
    {
        let ghost pre = rooms@;
        match rooms.remove(room_id) {
            Some(mut room) => {
                let ghost shrunk = room@.remove(id@);
                room.delete(id);
                // An empty room is dropped; otherwise the shrunk room is
                // put back.
                if room.length() == 0 {
                    proof {
                        assert(room@.len() == 0);
                        room@.lemma_len0_is_empty();
                        assert(shrunk.is_empty());
                        lemma_rvm_remove(pre, room_id@);
                        assert(room_view_map(rooms@) =~= rooms_side_leave(
                            room_view_map(pre),
                            id@,
                            room_id@,
                        ));
                    }
                } else {
                    proof {
                        if shrunk.is_empty() {
                            assert(room@ =~= shrunk);
                            assert(room@.len() == 0);
                        }
                    }
                    let ghost mid = rooms@;
                    rooms.insert(room_id, room);
                    proof {
                        lemma_rvm_remove(pre, room_id@);
                        lemma_rvm_insert(mid, room_id@, room);
                        assert(room_view_map(rooms@) =~= rooms_side_leave(
                            room_view_map(pre),
                            id@,
                            room_id@,
                        ));
                    }
                }
            },
            None => {
                proof {
                    assert(room_view_map(rooms@) =~= rooms_side_leave(
                        room_view_map(pre),
                        id@,
                        room_id@,
                    ));
                }
            },
        }
    }

    /// Takes `id` out of one room, on both sides of the registry.
    pub fn delete(&mut self, id: &str, room_id: &str)
        requires
            old(self).wf(),
        ensures
            final(self).wf(),
            final(self)@ == leave_effect(old(self)@, id@, room_id@),
    {
        let ghost prev = *old(self);
        match self.sids.remove(id) {
            Some(mut cur) => {
                remove_str(&mut cur, room_id);
                let ghost curset = str_set(cur@);
                self.sids.insert(id, cur);
                proof {
                    lemma_svm_remove(prev.sids@, id@);
                    lemma_svm_insert(prev.sids@.remove(id@), id@, cur);
                    assert(self@.sids =~= prev@.sids.insert(id@, curset));
                    assert(curset == prev@.sids[id@].remove(room_id@));
                }
            },
            None => {
                proof {
                    assert(self.sids@ =~= prev.sids@);
                    assert(self@.sids =~= prev@.sids);
                }
            },
        }
        Self::remove_id_from_room(&mut self.rooms, id, room_id);
        proof {
            assert(self@ == leave_effect(prev@, id@, room_id@));
            lemma_leave_effect_wf(prev@, id@, room_id@);
        }
    }

    /// Takes `id` out of the registry entirely: out of every room it
    /// joined (rooms left empty are deleted) and out of the connection
    /// index.
    pub fn delete_all(&mut self, id: &str)
        requires
            old(self).wf(),
        ensures
            final(self).wf(),
            final(self)@ == remove_all_effect(old(self)@, id@),
    {
        let ghost prev = *old(self);
        let room_list: Vec<String> = match self.sids.get(id) {
            Some(v) => clone_str_vec(v),
            None => Vec::new(),
        };
        proof {
            assert(distinct_strs(room_list@));
            assert(str_set(room_list@) == sid_rooms(prev@, id@)) by {
                if !prev.sids@.contains_key(id@) {
                    assert(str_set(room_list@) =~= Set::<Seq<char>>::empty());
                }
            }
        }
        let n = room_list.len();
        let mut i: usize = 0;
        while i < n
            invariant
                0 <= i <= n,
                n == room_list@.len(),
                distinct_strs(room_list@),
                str_set(room_list@) == sid_rooms(prev@, id@),
                self.rooms.wf(),
                forall|k: Seq<char>| self.rooms@.contains_key(k) ==> (#[trigger] self.rooms@[k]).wf(),
                self.sids == prev.sids,
                room_view_map(self.rooms@) == partial_removed(
                    prev@.rooms,
                    id@,
                    str_set(room_list@.subrange(0, i as int)),
                ),
            decreases n - i,
        {
            let ghost done = str_set(room_list@.subrange(0, i as int));
            Self::remove_id_from_room(&mut self.rooms, id, room_list[i].as_str());
            proof {
                assert(!done.contains(room_list@[i as int]@)) by {
                    if done.contains(room_list@[i as int]@) {
                        let j = choose|j: int|
                            0 <= j < i && strs(room_list@.subrange(0, i as int))[j]
                                == room_list@[i as int]@;
                        assert(strs(room_list@)[j] == strs(room_list@)[i as int]);
                    }
                }
                lemma_partial_removed_step(prev@.rooms, id@, done, room_list@[i as int]@);
                assert(str_set(room_list@.subrange(0, i + 1)) =~= done.insert(
                    room_list@[i as int]@,
                )) by {
                    assert forall|x: Seq<char>|
                        str_set(room_list@.subrange(0, i + 1)).contains(x) == done.insert(
                            room_list@[i as int]@,
                        ).contains(x) by {
                        let s1 = room_list@.subrange(0, i + 1);
                        let s0 = room_list@.subrange(0, i as int);
                        if str_set(s1).contains(x) {
                            let j = choose|j: int| 0 <= j < s1.len() && strs(s1)[j] == x;
                            if j < i {
                                assert(strs(s0)[j] == x);
                            }
                        }
                        if done.contains(x) {
                            let j = choose|j: int| 0 <= j < s0.len() && strs(s0)[j] == x;
                            assert(strs(s1)[j] == x);
                        }
                        if x == room_list@[i as int]@ {
                            assert(strs(s1)[i as int] == x);
                        }
                    }
                }
            }
            i += 1;
        }
        self.sids.remove(id);
        proof {
            assert(room_list@.subrange(0, n as int) =~= room_list@);
            lemma_partial_removed_full(prev@, id@);
            lemma_svm_remove(prev.sids@, id@);
            assert(self@.sids =~= prev@.sids.remove(id@));
            assert(self@ == remove_all_effect(prev@, id@));
            lemma_remove_all_effect_wf(prev@, id@);
        }
    }

    /// The connection ids in any of the given rooms, each once; unknown
    /// rooms contribute nothing.
    pub fn get_all_sids_from_rooms(&self, room_ids: Vec<&str>) -> (r: Vec<String>)
        requires
            self.wf(),
        ensures
            distinct_strs(r@),
            str_set(r@) == resolve_spec(self@, room_ids.deep_view()),
    {
        let ghost all = room_ids.deep_view();
        let mut acc: Vec<String> = Vec::new();
        proof {
            assert(str_set(acc@) =~= resolve_spec(self@, all.subrange(0, 0))) by {
                assert(all.subrange(0, 0).len() == 0);
            }
        }
        let n = room_ids.len();
        let mut i: usize = 0;
        while i < n
            invariant
                0 <= i <= n,
                n == all.len(),
                all == room_ids.deep_view(),
                n == room_ids@.len(),
                self.wf(),
                distinct_strs(acc@),
                str_set(acc@) == resolve_spec(self@, all.subrange(0, i as int)),
            decreases n - i,
        {
            let ghost before = str_set(acc@);
            match self.rooms.get(room_ids[i]) {
                Some(room) => {
                    proof {
                        assert(room@ == room_members(self@, all[i as int]));
                    }
                    let m = room.sockets.len();
                    let mut j: usize = 0;
                    while j < m
                        invariant
                            0 <= j <= m,
                            m == room.socket_seq().len(),
                            distinct_strs(acc@),
                            str_set(acc@) == before.union(
                                str_set(room.socket_seq().subrange(0, j as int)),
                            ),
                        decreases m - j,
                    {
                        push_unique(&mut acc, room.sockets[j].as_str());
                        proof {
                            let s0 = room.socket_seq().subrange(0, j as int);
                            let s1 = room.socket_seq().subrange(0, j + 1);
                            assert(str_set(s1) =~= str_set(s0).insert(
                                room.socket_seq()[j as int]@,
                            )) by {
                                assert forall|x: Seq<char>|
                                    str_set(s1).contains(x) == str_set(s0).insert(
                                        room.socket_seq()[j as int]@,
                                    ).contains(x) by {
                                    if str_set(s1).contains(x) {
                                        let k = choose|k: int|
                                            0 <= k < s1.len() && strs(s1)[k] == x;
                                        if k < j {
                                            assert(strs(s0)[k] == x);
                                        }
                                    }
                                    if str_set(s0).contains(x) {
                                        let k = choose|k: int|
                                            0 <= k < s0.len() && strs(s0)[k] == x;
                                        assert(strs(s1)[k] == x);
                                    }
                                    if x == room.socket_seq()[j as int]@ {
                                        assert(strs(s1)[j as int] == x);
                                    }
                                }
                            }
                            assert(str_set(acc@) =~= before.union(str_set(s1)));
                        }
                        j += 1;
                    }
                    proof {
                        assert(room.socket_seq().subrange(0, m as int) =~= room.socket_seq());
                        lemma_resolve_step(self@, all, i as int);
                        assert(str_set(acc@) =~= resolve_spec(self@, all.subrange(0, i + 1)));
                    }
                },
                None => {
                    proof {
                        assert(room_members(self@, all[i as int]) =~= Set::<Seq<char>>::empty());
                        lemma_resolve_step(self@, all, i as int);
                        assert(str_set(acc@) =~= resolve_spec(self@, all.subrange(0, i + 1)));
                    }
                },
            }
            i += 1;
        }
        proof {
            assert(all.subrange(0, n as int) =~= all);
        }
        acc
    }

    /// Every connection id the index knows, each once.
    pub fn get_all_sids(&self) -> (r: Vec<String>)
        requires
            self.wf(),
        ensures
            distinct_strs(r@),
            str_set(r@) == self@.sids.dom(),
    {
        let r = self.sids.keys();
        proof {
            assert(str_set(r@) =~= self@.sids.dom());
        }
        r
    }

    /// The rooms a connection has joined, each once; none for an unknown
    /// connection.
    pub fn get_socket_rooms(&self, id: &str) -> (r: Vec<String>)
        requires
            self.wf(),
        ensures
            distinct_strs(r@),
            str_set(r@) == sid_rooms(self@, id@),
    {
        match self.sids.get(id) {
            Some(v) => clone_str_vec(v),
            None => {
                let r: Vec<String> = Vec::new();
                proof {
                    assert(str_set(r@) =~= sid_rooms(self@, id@));
                }
                r
            },
        }
    }

    /// The rooms a connection has joined, or `None` for an unknown
    /// connection.
    pub(crate) fn socket_rooms_opt(&self, id: &str) -> (r: Option<Vec<String>>)
        requires
            self.wf(),
        ensures
            match r {
                Some(v) => self@.sids.contains_key(id@) && distinct_strs(v@) && str_set(v@)
                    == self@.sids[id@],
                None => !self@.sids.contains_key(id@),
            },
    {
        match self.sids.get(id) {
            Some(v) => Some(clone_str_vec(v)),
            None => None,
        }
    }

    /// Every room that currently has a member, each once.
    pub fn get_all_rooms(&self) -> (r: Vec<String>)
        requires
            self.wf(),
        ensures
            distinct_strs(r@),
            str_set(r@) == self@.rooms.dom(),
    {
        let r = self.rooms.keys();
        proof {
            assert(str_set(r@) =~= self@.rooms.dom());
        }
        r
    }
}

/// The room table after `sid` has left exactly the rooms of `done`.
pub open spec fn partial_removed(
    rm: Map<Seq<char>, Set<Seq<char>>>,
    sid: Seq<char>,
    done: Set<Seq<char>>,
) -> Map<Seq<char>, Set<Seq<char>>> {
    Map::new(
        |r: Seq<char>|
            rm.contains_key(r) && !(done.contains(r) && rm[r].remove(sid).is_empty()),
        |r: Seq<char>|
            if done.contains(r) {
                rm[r].remove(sid)
            } else {
                rm[r]
            },
    )
}

/// Leaving one more room advances the partial removal by that room.
proof fn lemma_partial_removed_step(
    rm: Map<Seq<char>, Set<Seq<char>>>,
    sid: Seq<char>,
    done: Set<Seq<char>>,
    room: Seq<char>,
)
    requires
        !done.contains(room),
    ensures
        rooms_side_leave(partial_removed(rm, sid, done), sid, room) == partial_removed(
            rm,
            sid,
            done.insert(room),
        ),
{
    let cur = partial_removed(rm, sid, done);
    let next = partial_removed(rm, sid, done.insert(room));
    if cur.contains_key(room) {
        assert(cur[room] == rm[room]);
        if cur[room].remove(sid).is_empty() {
            assert(rooms_side_leave(cur, sid, room) =~= next);
        } else {
            assert(rooms_side_leave(cur, sid, room) =~= next);
        }
    } else {
        assert(rooms_side_leave(cur, sid, room) =~= next);
    }
}

/// Once `sid` has left all its rooms, the room table is the one of
/// `remove_all_effect`; rooms it never joined are untouched.
proof fn lemma_partial_removed_full(v: RoomsView, sid: Seq<char>)
    requires
        view_wf(v),
    ensures
        partial_removed(v.rooms, sid, sid_rooms(v, sid)) == remove_all_effect(v, sid).rooms,
{
    let done = sid_rooms(v, sid);
    let lhs = partial_removed(v.rooms, sid, done);
    let rhs = remove_all_effect(v, sid).rooms;
    assert forall|r: Seq<char>|
        lhs.contains_key(r) == rhs.contains_key(r) by {
        if v.rooms.contains_key(r) && !done.contains(r) {
            assert(!sid_has(v, sid, r));
            assert(!room_has(v, r, sid));
            assert(v.rooms[r].remove(sid) =~= v.rooms[r]);
            assert(v.rooms[r].len() > 0);
            if v.rooms[r].is_empty() {
                assert(v.rooms[r] =~= Set::<Seq<char>>::empty());
            }
        }
    }
    assert forall|r: Seq<char>| lhs.contains_key(r) implies lhs[r] == rhs[r] by {
        if !done.contains(r) {
            assert(!sid_has(v, sid, r));
            assert(!room_has(v, r, sid));
            assert(v.rooms[r].remove(sid) =~= v.rooms[r]);
        }
    }
    assert(lhs =~= rhs);
}

} // verus!
