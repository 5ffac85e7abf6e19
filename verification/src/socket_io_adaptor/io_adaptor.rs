//! An earlier cut of the namespace adaptor: a room registry and a
//! connection index without a path name, with room-addressed fan-out.

use vstd::prelude::*;

use crate::socket_io_adaptor::chat_room_manager::{
    empty_view, join_effect, leave_effect, remove_all_effect, resolve_spec, ChatRoomManager,
    RoomsView,
};
use crate::socket_io_adaptor::socket_id_manager::SocketIdManager;
use crate::socket_io_adaptor::str_map::strs;

verus! {

/// The target connection ids of a fan-out, in order.
pub open spec fn target_sids(r: Seq<(String, String)>) -> Seq<Seq<char>> {
    r.map_values(|p: (String, String)| p.0@)
}

/// A room registry and a connection index, mutated together.
pub struct IoAdaptor<A> {
    chat_room_manager: ChatRoomManager,
    socket_id_manager: SocketIdManager<A>,
}

impl<A> IoAdaptor<A> {
    pub closed spec fn wf(self) -> bool {
        &&& self.chat_room_manager.wf()
        &&& self.socket_id_manager.wf()
    }

    /// The room registry's state.
    pub closed spec fn rooms_view(self) -> RoomsView {
        self.chat_room_manager@
    }

    /// The connection index: id to delivery handle.
    pub closed spec fn handles(self) -> Map<Seq<char>, A> {
        self.socket_id_manager@
    }

    pub fn new() -> (r: Self)
        ensures
            r.wf(),
            r.rooms_view() == empty_view(),
            r.handles() == Map::<Seq<char>, A>::empty(),
    {
        IoAdaptor {
            chat_room_manager: ChatRoomManager::new(),
            socket_id_manager: SocketIdManager::new(),
        }
    }

    /// Registers a connection: stores its delivery handle and joins it to
    /// its self-named room.
    pub fn add_socket(&mut self, id: &str, socket_addr: A)
        requires
            old(self).wf(),
        ensures
            final(self).wf(),
            final(self).handles() == old(self).handles().insert(id@, socket_addr),
            final(self).rooms_view() == join_effect(old(self).rooms_view(), id@, id@),
    {
        self.socket_id_manager.add_socket(id, socket_addr);
        self.chat_room_manager.add(id, id);
    }

    /// Joins a connection to a room.
    pub fn join_room(&mut self, id: &str, room_id: &str)
        requires
            old(self).wf(),
        ensures
            final(self).wf(),
            final(self).handles() == old(self).handles(),
            final(self).rooms_view() == join_effect(old(self).rooms_view(), id@, room_id@),
    {
        self.chat_room_manager.add(id, room_id);
    }

    /// Takes a connection out of a room.
    pub fn leave_room(&mut self, id: &str, room_id: &str)
        requires
            old(self).wf(),
        ensures
            final(self).wf(),
            final(self).handles() == old(self).handles(),
            final(self).rooms_view() == leave_effect(old(self).rooms_view(), id@, room_id@),
    {
        self.chat_room_manager.delete(id, room_id);
    }

    /// Deregisters a connection entirely.
    pub fn remove_socket(&mut self, id: &str)
        requires
            old(self).wf(),
        ensures
            final(self).wf(),
            final(self).handles() == old(self).handles().remove(id@),
            final(self).rooms_view() == remove_all_effect(old(self).rooms_view(), id@),
    {
        self.socket_id_manager.remove_socket_by_id(id);
        self.chat_room_manager.delete_all(id);
    }

    /// The fan-out of one message text to the members of the given rooms:
    /// one delivery per resolved connection.
    pub fn emit_to_rooms(&self, rooms: Vec<&str>, message: &str) -> (r: Vec<(String, String)>)
        requires
            self.wf(),
        ensures
            target_sids(r@).to_set() == resolve_spec(self.rooms_view(), rooms.deep_view()),
            forall|i: int| 0 <= i < r@.len() ==> (#[trigger] r@[i]).1@ == message@,
            forall|i: int, j: int| 0 <= i < j < r@.len() ==> target_sids(r@)[i] != target_sids(
                r@,
            )[j],
    {
        let sids = self.chat_room_manager.get_all_sids_from_rooms(rooms);
        let mut out: Vec<(String, String)> = Vec::new();
        let n = sids.len();
        let mut i: usize = 0;
        while i < n
            invariant
                0 <= i <= n,
                n == sids@.len(),
                out@.len() == i,
                forall|k: int| 0 <= k < i ==> (#[trigger] out@[k]).0@ == sids@[k]@,
                forall|k: int| 0 <= k < i ==> (#[trigger] out@[k]).1@ == message@,
            decreases n - i,
        {
            out.push((sids[i].clone(), message.to_owned()));
            i += 1;
        }
        proof {
            assert forall|x: Seq<char>|
                target_sids(out@).to_set().contains(x) == strs(sids@).to_set().contains(x) by {
                if target_sids(out@).to_set().contains(x) {
                    let k = choose|k: int|
                        0 <= k < target_sids(out@).len() && target_sids(out@)[k] == x;
                    assert(strs(sids@)[k] == x);
                    assert(strs(sids@).contains(x));
                }
                if strs(sids@).to_set().contains(x) {
                    let k = choose|k: int| 0 <= k < strs(sids@).len() && strs(sids@)[k] == x;
                    assert(target_sids(out@)[k] == x);
                    assert(target_sids(out@).contains(x));
                }
            }
            assert(target_sids(out@).to_set() =~= strs(sids@).to_set());
            assert forall|i1: int, j1: int| 0 <= i1 < j1 < out@.len() implies target_sids(
                out@,
            )[i1] != target_sids(out@)[j1] by {
                assert(strs(sids@)[i1] != strs(sids@)[j1]);
            }
        }
        out
    }

    /// The fan-out of one message text to every connection in any room.
    pub fn emit_to_all(&self, message: &str) -> (r: Vec<(String, String)>)
        requires
            self.wf(),
        ensures
            target_sids(r@).to_set() == crate::socket_io_adaptor::namespace::all_members(
                self.rooms_view(),
            ),
            forall|i: int| 0 <= i < r@.len() ==> (#[trigger] r@[i]).1@ == message@,
            forall|i: int, j: int| 0 <= i < j < r@.len() ==> target_sids(r@)[i] != target_sids(
                r@,
            )[j],
    {
        let rooms = self.chat_room_manager.get_all_rooms();
        let mut refs: Vec<&str> = Vec::new();
        let n = rooms.len();
        let mut i: usize = 0;
        while i < n
            invariant
                0 <= i <= n,
                n == rooms@.len(),
                refs.deep_view() == strs(rooms@).subrange(0, i as int),
            decreases n - i,
        {
            let ghost pre = refs.deep_view();
            let entry: &str = rooms[i].as_str();
            proof {
                assert(entry@ == rooms@[i as int]@);
            }
            refs.push(entry);
            proof {
                let dv = refs.deep_view();
                let target = strs(rooms@).subrange(0, i + 1);
                assert(dv.len() == refs@.len());
                assert(pre.len() == i);
                assert(refs@.len() == i + 1);
                assert(target.len() == i + 1);
                assert(dv.len() == target.len());
                assert forall|k: int| 0 <= k < dv.len() implies dv[k] == target[k] by {
                    if k < i {
                        assert(dv[k] == pre[k]);
                    } else {
                        assert(dv[k] == entry@);
                    }
                }
                assert(dv =~= target);
            }
            i += 1;
        }
        proof {
            assert(strs(rooms@).subrange(0, n as int) =~= strs(rooms@));
        }
        let ghost rv = refs.deep_view();
        let r = self.emit_to_rooms(refs, message);
        proof {
            assert(rv.to_set() =~= crate::socket_io_adaptor::str_map::str_set(rooms@));
            crate::socket_io_adaptor::namespace::lemma_resolve_all(self.rooms_view(), rv);
        }
        r
    }
}

} // verus!
