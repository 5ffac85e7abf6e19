//! A namespace: a validated path name, a room registry and a connection
//! index, with room-addressed fan-out of outbound messages.

use vstd::prelude::*;
use vstd::string::*;

use crate::socket_io_adaptor::chat_room_manager::{
    empty_view, join_effect, remove_all_effect, resolve_spec, room_has, room_members,
    ChatRoomManager, RoomsView,
};
use crate::socket_io_adaptor::socket_id_manager::SocketIdManager;
use crate::socket_io_adaptor::str_map::{distinct_strs, str_set, strs};
use crate::socket_io_websocket::socket_message::SocketMessage;

verus! {

/// Why a namespace name was rejected.
#[derive(Debug, PartialEq, Eq, Structural, Copy, Clone)]
pub enum NamespaceNameError {
    /// The name was empty.
    EmptyName,
    /// The name does not start with '/'.
    MustStartWithSlash,
    /// The name contains a comma, the wire separator after a namespace.
    ContainsComma,
}

/// A valid namespace path: non-empty, starting with '/', comma-free.
pub open spec fn valid_name(s: Seq<char>) -> bool {
    &&& s.len() > 0
    &&& s[0] == '/'
    &&& forall|i: int| 0 <= i < s.len() ==> s[i] != ','
}

/// The error a name is rejected with, if any; `None` exactly for valid
/// names.
pub open spec fn name_error_of(s: Seq<char>) -> Option<NamespaceNameError> {
    if s.len() == 0 {
        Some(NamespaceNameError::EmptyName)
    } else if s[0] != '/' {
        Some(NamespaceNameError::MustStartWithSlash)
    } else if exists|i: int| 0 <= i < s.len() && s[i] == ',' {
        Some(NamespaceNameError::ContainsComma)
    } else {
        None
    }
}

/// A validated namespace path name.
#[derive(Debug)]
pub struct NamespaceName {
    name: String,
}

impl View for NamespaceName {
    type V = Seq<char>;

    closed spec fn view(&self) -> Seq<char> {
        self.name@
    }
}

impl Default for NamespaceName {
    /// The default namespace path "/".
    fn default() -> (r: Self)
        ensures
            r@ == seq!['/'],
    {
        let r = NamespaceName { name: "/".to_owned() };
        proof {
            reveal_strlit("/");
            assert(r@ =~= seq!['/']);
        }
        r
    }
}

impl NamespaceName {
    /// Validates a path name; `Err` carries exactly the taxonomy's reason.
    pub fn try_new(name: &str) -> (r: Result<Self, NamespaceNameError>)
        ensures
            r matches Ok(n) ==> name_error_of(name@) is None && n@ == name@ && valid_name(name@),
            r matches Err(e) ==> name_error_of(name@) == Some(e),
    {
        let n = name.unicode_len();
        if n == 0 {
            return Err(NamespaceNameError::EmptyName);
        }
        if name.get_char(0) != '/' {
            return Err(NamespaceNameError::MustStartWithSlash);
        }
        let mut i: usize = 0;
        while i < n
            invariant
                0 <= i <= n,
                n == name@.len(),
                name@.len() > 0,
                name@[0] == '/',
                forall|k: int| 0 <= k < i ==> name@[k] != ',',
            decreases n - i,
        {
            if name.get_char(i) == ',' {
                proof {
                    assert(name_error_of(name@) == Some(NamespaceNameError::ContainsComma)) by {
                        assert(0 <= i < name@.len() && name@[i as int] == ',');
                        assert(exists|k: int| 0 <= k < name@.len() && name@[k] == ',');
                    }
                }
                return Err(NamespaceNameError::ContainsComma);
            }
            i += 1;
        }
        Ok(NamespaceName { name: name.to_owned() })
    }
}

/// The connections that sit in at least one room.
pub open spec fn all_members(v: RoomsView) -> Set<Seq<char>> {
    Set::new(|sid: Seq<char>| exists|room: Seq<char>| #[trigger] room_has(v, room, sid))
}

/// Resolving every room of the registry reaches exactly the connections
/// that sit in some room.
pub proof fn lemma_resolve_all(v: RoomsView, rooms: Seq<Seq<char>>)
    requires
        rooms.to_set() == v.rooms.dom(),
    ensures
        resolve_spec(v, rooms) == all_members(v),
{
    assert forall|x: Seq<char>|
        resolve_spec(v, rooms).contains(x) == all_members(v).contains(x) by {
        if resolve_spec(v, rooms).contains(x) {
            let i = choose|i: int| 0 <= i < rooms.len() && room_members(v, rooms[i]).contains(x);
            assert(rooms.contains(rooms[i]));
            assert(v.rooms.dom().contains(rooms[i]));
            assert(room_has(v, rooms[i], x));
        }
        if all_members(v).contains(x) {
            let room = choose|room: Seq<char>| #[trigger] room_has(v, room, x);
            assert(rooms.to_set().contains(room));
            let i = choose|i: int| 0 <= i < rooms.len() && rooms[i] == room;
            assert(room_members(v, rooms[i]).contains(x));
        }
    }
    assert(resolve_spec(v, rooms) =~= all_members(v));
}

/// The target connection ids of a fan-out, in order.
pub open spec fn delivery_sids(r: Seq<(String, SocketMessage)>) -> Seq<Seq<char>> {
    r.map_values(|p: (String, SocketMessage)| p.0@)
}

/// Every delivery of the fan-out carries the same event name and content.
pub open spec fn deliveries_carry(
    r: Seq<(String, SocketMessage)>,
    event_name: Seq<char>,
    content: Seq<char>,
) -> bool {
    forall|i: int|
        0 <= i < r.len() ==> (#[trigger] r[i]).1.event_name@ == event_name && r[i].1.content@
            == content
}

/// No connection id appears twice in a fan-out.
pub open spec fn deliveries_distinct(r: Seq<(String, SocketMessage)>) -> bool {
    forall|i: int, j: int| 0 <= i < j < r.len() ==> delivery_sids(r)[i] != delivery_sids(r)[j]
}

/// One logical channel: a name, a room registry and a connection index.
pub struct Namespace<A> {
    name: NamespaceName,
    chat_room_manager: ChatRoomManager,
    socket_id_manager: SocketIdManager<A>,
}

impl<A> Namespace<A> {
    pub closed spec fn wf(self) -> bool {
        &&& self.chat_room_manager.wf()
        &&& self.socket_id_manager.wf()
    }

    /// The namespace's path name.
    pub closed spec fn name_view(self) -> Seq<char> {
        self.name@
    }

    /// The room registry's state.
    pub closed spec fn rooms_view(self) -> RoomsView {
        self.chat_room_manager@
    }

    /// The connection index: id to delivery handle.
    pub closed spec fn handles(self) -> Map<Seq<char>, A> {
        self.socket_id_manager@
    }

    pub fn new(name: NamespaceName) -> (r: Self)
        ensures
            r.wf(),
            r.name_view() == name@,
            r.rooms_view() == empty_view(),
            r.handles() == Map::<Seq<char>, A>::empty(),
    {
        Namespace {
            name,
            chat_room_manager: ChatRoomManager::new(),
            socket_id_manager: SocketIdManager::new(),
        }
    }

    /// Registers a connection: stores its delivery handle (last writer
    /// wins) and joins it to its self-named room, so point-to-point
    /// delivery reuses the room mechanism.
    pub fn add_socket(&mut self, id: &str, socket_addr: A)
        requires
            old(self).wf(),
        ensures
            final(self).wf(),
            final(self).name_view() == old(self).name_view(),
            final(self).handles() == old(self).handles().insert(id@, socket_addr),
            final(self).rooms_view() == join_effect(old(self).rooms_view(), id@, id@),
    {
        self.socket_id_manager.add_socket(id, socket_addr);
        self.chat_room_manager.add(id, id);
    }

    /// Joins a connection to a room.
    pub fn join_room(&mut self, id: &str, room_id: &str)
        requires
            old(self).wf(),
        ensures
            final(self).wf(),
            final(self).name_view() == old(self).name_view(),
            final(self).handles() == old(self).handles(),
            final(self).rooms_view() == join_effect(old(self).rooms_view(), id@, room_id@),
    {
        self.chat_room_manager.add(id, room_id);
    }

    /// Takes a connection out of a room; leaving a room it is not in
    /// changes nothing.
    pub fn leave_room(&mut self, id: &str, room_id: &str)
        requires
            old(self).wf(),
        ensures
            final(self).wf(),
            final(self).name_view() == old(self).name_view(),
            final(self).handles() == old(self).handles(),
            final(self).rooms_view() == crate::socket_io_adaptor::chat_room_manager::leave_effect(
                old(self).rooms_view(),
                id@,
                room_id@,
            ),
    {
        self.chat_room_manager.delete(id, room_id);
    }

    /// Deregisters a connection: drops its delivery handle and takes it
    /// out of every room it joined. Calling this again is harmless.
    pub fn remove_socket(&mut self, id: &str)
        requires
            old(self).wf(),
        ensures
            final(self).wf(),
            final(self).name_view() == old(self).name_view(),
            final(self).handles() == old(self).handles().remove(id@),
            final(self).rooms_view() == remove_all_effect(old(self).rooms_view(), id@),
    {
        self.socket_id_manager.remove_socket_by_id(id);
        self.chat_room_manager.delete_all(id);
    }

    /// The delivery handle of a connection, if registered.
    pub fn get_socket_addr(&self, id: &str) -> (r: Option<&A>)
        requires
            self.wf(),
        ensures
            match r {
                Some(a) => self.handles().contains_key(id@) && *a == self.handles()[id@],
                None => !self.handles().contains_key(id@),
            },
    {
        self.socket_id_manager.get_socket_addr(id)
    }

    /// Every connection id currently in some room, each once.
    pub fn get_all_sids(&self) -> (r: Vec<String>)
        requires
            self.wf(),
        ensures
            distinct_strs(r@),
            str_set(r@) == self.rooms_view().sids.dom(),
    {
        self.chat_room_manager.get_all_sids()
    }

    /// The fan-out of one message to the members of the given rooms: one
    /// delivery per resolved connection, each carrying the event name and
    /// content. The caller pushes each delivery through the connection's
    /// handle; a failed push must not stop the rest.
    pub fn emit_to_rooms(&self, rooms: Vec<&str>, event_name: &str, message: &str) -> (r: Vec<
        (String, SocketMessage),
    >)
        requires
            self.wf(),
        ensures
            delivery_sids(r@).to_set() == resolve_spec(self.rooms_view(), rooms.deep_view()),
            deliveries_carry(r@, event_name@, message@),
            deliveries_distinct(r@),
    {
        let sids = self.chat_room_manager.get_all_sids_from_rooms(rooms);
        let mut out: Vec<(String, SocketMessage)> = Vec::new();
        let n = sids.len();
        let mut i: usize = 0;
        while i < n
            invariant
                0 <= i <= n,
                n == sids@.len(),
                out@.len() == i,
                forall|k: int| 0 <= k < i ==> (#[trigger] out@[k]).0@ == sids@[k]@,
                deliveries_carry(out@, event_name@, message@),
            decreases n - i,
        {
            let msg = SocketMessage { event_name: event_name.to_owned(), content: message.to_owned() };
            out.push((sids[i].clone(), msg));
            i += 1;
        }
        proof {
            assert forall|x: Seq<char>|
                delivery_sids(out@).to_set().contains(x) == str_set(sids@).contains(x) by {
                if delivery_sids(out@).to_set().contains(x) {
                    let k = choose|k: int|
                        0 <= k < delivery_sids(out@).len() && delivery_sids(out@)[k] == x;
                    assert(strs(sids@)[k] == x);
                    assert(strs(sids@).contains(x));
                }
                if str_set(sids@).contains(x) {
                    let k = choose|k: int| 0 <= k < strs(sids@).len() && strs(sids@)[k] == x;
                    assert(delivery_sids(out@)[k] == x);
                    assert(delivery_sids(out@).contains(x));
                }
            }
            assert(delivery_sids(out@).to_set() =~= str_set(sids@));
            assert(deliveries_distinct(out@)) by {
                assert forall|i1: int, j1: int|
                    0 <= i1 < j1 < out@.len() implies delivery_sids(out@)[i1] != delivery_sids(
                    out@,
                )[j1] by {
                    assert(strs(sids@)[i1] != strs(sids@)[j1]);
                }
            }
        }
        out
    }

    /// The fan-out of one message to a single room's members.
    pub fn emit_to(&self, room: &str, event_name: &str, message: &str) -> (r: Vec<
        (String, SocketMessage),
    >)
        requires
            self.wf(),
        ensures
            delivery_sids(r@).to_set() == room_members(self.rooms_view(), room@),
            deliveries_carry(r@, event_name@, message@),
            deliveries_distinct(r@),
    {
        let rooms_vec: Vec<&str> = vec![room];
        let ghost rs = rooms_vec.deep_view();
        let r = self.emit_to_rooms(rooms_vec, event_name, message);
        proof {
            assert(rs =~= seq![room@]);
            crate::socket_io_adaptor::chat_room_manager::lemma_resolve_single(
                self.rooms_view(),
                room@,
            );
        }
        r
    }

    /// The fan-out of one message to every connection in any room of the
    /// namespace.
    pub fn emit_to_all(&self, event_name: &str, message: &str) -> (r: Vec<
        (String, SocketMessage),
    >)
        requires
            self.wf(),
        ensures
            delivery_sids(r@).to_set() == all_members(self.rooms_view()),
            deliveries_carry(r@, event_name@, message@),
            deliveries_distinct(r@),
    {
        let rooms = self.chat_room_manager.get_all_rooms();
        let mut refs: Vec<&str> = Vec::new();
        let n = rooms.len();
        let mut i: usize = 0;
        while i < n
            invariant
                0 <= i <= n,
                n == rooms@.len(),
                refs.deep_view() == strs(rooms@).subrange(0, i as int),
            decreases n - i,
        {
            let ghost pre = refs.deep_view();
            let entry: &str = rooms[i].as_str();
            proof {
                assert(entry@ == rooms@[i as int]@);
            }
            refs.push(entry);
            proof {
                let dv = refs.deep_view();
                let target = strs(rooms@).subrange(0, i + 1);
                assert(dv.len() == refs@.len());
                assert(pre.len() == i);
                assert(refs@.len() == i + 1);
                assert(target.len() == i + 1);
                assert(dv.len() == target.len());
                assert forall|k: int| 0 <= k < dv.len() implies dv[k] == target[k] by {
                    if k < i {
                        assert(dv[k] == pre[k]);
                    } else {
                        assert(dv[k] == entry@);
                    }
                }
                assert(dv =~= target);
            }
            i += 1;
        }
        proof {
            assert(strs(rooms@).subrange(0, n as int) =~= strs(rooms@));
        }
        let ghost rv = refs.deep_view();
        let r = self.emit_to_rooms(refs, event_name, message);
        proof {
            assert(rv =~= strs(rooms@));
            assert(rv.to_set() =~= str_set(rooms@));
            lemma_resolve_all(self.rooms_view(), rv);
        }
        r
    }

    /// The namespace's path name as text.
    pub fn get_name(&self) -> (r: &str)
        ensures
            r@ == self.name_view(),
    {
        self.name.name.as_str()
    }
}

} // verus!
