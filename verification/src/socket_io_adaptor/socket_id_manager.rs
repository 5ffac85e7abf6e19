//! The connection index: connection id to delivery handle. The handle type
//! is whatever the transport layer uses to reach a connection's send path;
//! this registry only stores and hands it back.

use vstd::prelude::*;

use crate::socket_io_adaptor::str_map::StrMap;

verus! {

/// Connection id to delivery handle, last writer winning.
pub struct SocketIdManager<A> {
    id_socket_map: StrMap<A>,
}

impl<A> View for SocketIdManager<A> {
    type V = Map<Seq<char>, A>;

    closed spec fn view(&self) -> Map<Seq<char>, A> {
        self.id_socket_map@
    }
}

impl<A> SocketIdManager<A> {
    pub closed spec fn wf(self) -> bool {
        self.id_socket_map.wf()
    }

    pub fn new() -> (r: Self)
        ensures
            r.wf(),
            r@ == Map::<Seq<char>, A>::empty(),
    {
        SocketIdManager { id_socket_map: StrMap::new() }
    }

    /// Binds `id` to a delivery handle; an earlier handle under the same
    /// id is replaced.
    pub fn add_socket(&mut self, id: &str, socket_addr: A)
        requires
            old(self).wf(),
        ensures
            final(self).wf(),
            final(self)@ == old(self)@.insert(id@, socket_addr),
    {
        self.id_socket_map.insert(id, socket_addr);
    }

    /// The delivery handle of `id`, if known.
    pub fn get_socket_addr(&self, id: &str) -> (r: Option<&A>)
        requires
            self.wf(),
        ensures
            match r {
                Some(a) => self@.contains_key(id@) && *a == self@[id@],
                None => !self@.contains_key(id@),
            },
    {
        self.id_socket_map.get(id)
    }

    /// Unbinds `id`, handing its handle back, if any.
    pub fn remove_socket_by_id(&mut self, id: &str) -> (r: Option<A>)
        requires
            old(self).wf(),
        ensures
            final(self).wf(),
            final(self)@ == old(self)@.remove(id@),
            match r {
                Some(a) => old(self)@.contains_key(id@) && a == old(self)@[id@],
                None => !old(self)@.contains_key(id@),
            },
    {
        self.id_socket_map.remove(id)
    }
}

} // verus!
