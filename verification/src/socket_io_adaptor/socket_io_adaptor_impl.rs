//! An earlier cut of the room registry, kept alongside `ChatRoomManager`.
//! It tracks the same two-sided membership relation and shares its
//! mathematical model.

use vstd::prelude::*;

use crate::socket_io_adaptor::chat_room_manager::{
    join_all_effect, join_effect, leave_effect, remove_all_effect, resolve_spec, sid_rooms,
    ChatRoomManager, RoomsView,
};
use crate::socket_io_adaptor::str_map::{distinct_strs, str_set};

verus! {

/// The room registry of one namespace: room table and connection index,
/// mutated together.
pub struct SocketIoAdaptor {
    manager: ChatRoomManager,
}

impl View for SocketIoAdaptor {
    type V = RoomsView;

    closed spec fn view(&self) -> RoomsView {
        self.manager@
    }
}

impl SocketIoAdaptor {
    pub closed spec fn wf(self) -> bool {
        self.manager.wf()
    }

    pub fn new() -> (r: Self)
        ensures
            r.wf(),
            r@ == crate::socket_io_adaptor::chat_room_manager::empty_view(),
    {
        SocketIoAdaptor { manager: ChatRoomManager::new() }
    }

    /// Joins `id` to one room.
    pub fn add(&mut self, id: &str, room_id: &str)
        requires
            old(self).wf(),
        ensures
            final(self).wf(),
            final(self)@ == join_effect(old(self)@, id@, room_id@),
    {
        self.manager.add(id, room_id);
    }

    /// Joins `id` to each room of a list in turn.
    pub fn add_all(&mut self, id: &str, room_ids: Vec<&str>)
        requires
            old(self).wf(),
        ensures
            final(self).wf(),
            final(self)@ == join_all_effect(old(self)@, id@, room_ids.deep_view()),
    {
        self.manager.add_all(id, room_ids);
    }

    /// Takes `id` out of one room, on both sides of the registry.
    pub fn delete(&mut self, id: &str, room_id: &str)
        requires
            old(self).wf(),
        ensures
            final(self).wf(),
            final(self)@ == leave_effect(old(self)@, id@, room_id@),
    {
        self.manager.delete(id, room_id);
    }

    /// Takes `id` out of every room it joined and out of the connection
    /// index.
    pub fn delete_all(&mut self, id: &str)
        requires
            old(self).wf(),
        ensures
            final(self).wf(),
            final(self)@ == remove_all_effect(old(self)@, id@),
    {
        self.manager.delete_all(id);
    }

    /// The connection ids in any of the given rooms, each once.
    pub fn get_all_sids_from_rooms(&self, room_ids: Vec<&str>) -> (r: Vec<String>)
        requires
            self.wf(),
        ensures
            distinct_strs(r@),
            str_set(r@) == resolve_spec(self@, room_ids.deep_view()),
    {
        self.manager.get_all_sids_from_rooms(room_ids)
    }

    /// Every connection id the index knows, each once.
    pub fn get_all_sids(&self) -> (r: Vec<String>)
        requires
            self.wf(),
        ensures
            distinct_strs(r@),
            str_set(r@) == self@.sids.dom(),
    {
        self.manager.get_all_sids()
    }

    /// The rooms a connection has joined, or `None` for an unknown
    /// connection.
    pub fn get_socket_rooms(&self, id: &str) -> (r: Option<Vec<String>>)
        requires
            self.wf(),
        ensures
            match r {
                Some(v) => self@.sids.contains_key(id@) && distinct_strs(v@) && str_set(v@)
                    == sid_rooms(self@, id@),
                None => !self@.sids.contains_key(id@),
            },
    {
        self.manager.socket_rooms_opt(id)
    }
}

} // verus!
