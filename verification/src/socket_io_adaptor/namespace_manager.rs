//! The namespace registry: path name to namespace, the single shared entry
//! point every connection registers through.

use vstd::prelude::*;

use crate::socket_io_adaptor::chat_room_manager::{
    empty_view, join_effect, leave_effect, remove_all_effect,
};
use crate::socket_io_adaptor::namespace::{
    name_error_of, Namespace, NamespaceName, NamespaceNameError,
};
use crate::socket_io_adaptor::str_map::StrMap;

verus! {

/// Why a namespace could not be created.
#[derive(Debug, PartialEq, Eq, Structural, Copy, Clone)]
pub enum RegistryError {
    /// The path name is invalid; carries the name validator's reason.
    InvalidName(NamespaceNameError),
    /// The path is already registered.
    DuplicateNamespace,
}

/// Path name to namespace.
pub struct NamespaceManager<A> {
    nsp_adaptor_map: StrMap<Namespace<A>>,
}

impl<A> NamespaceManager<A> {
    pub closed spec fn wf(self) -> bool {
        &&& self.nsp_adaptor_map.wf()
        &&& forall|k: Seq<char>|
            self.nsp_adaptor_map@.contains_key(k) ==> (#[trigger] self.nsp_adaptor_map@[k]).wf()
    }

    /// The registered namespaces by path.
    pub closed spec fn spaces(self) -> Map<Seq<char>, Namespace<A>> {
        self.nsp_adaptor_map@
    }

    pub fn new() -> (r: Self)
        ensures
            r.wf(),
            r.spaces() == Map::<Seq<char>, Namespace<A>>::empty(),
    {
        NamespaceManager { nsp_adaptor_map: StrMap::new() }
    }

    /// Registers an empty namespace under `nsp`: rejects an invalid path
    /// with the name validator's reason, and an already-registered path
    /// with `DuplicateNamespace`; either failure leaves the registry
    /// unchanged.
    pub fn create_namespace(&mut self, nsp: &str) -> (r: Result<(), RegistryError>)
        requires
            old(self).wf(),
        ensures
            final(self).wf(),
            match r {
                Ok(()) => name_error_of(nsp@) is None && !old(self).spaces().contains_key(nsp@)
                    && final(self).spaces().dom() == old(self).spaces().dom().insert(nsp@) && final(self).spaces()[nsp@].name_view() == nsp@ && final(self).spaces()[nsp@].rooms_view()
                    == empty_view() && final(self).spaces()[nsp@].handles() == Map::<
                    Seq<char>,
                    A,
                >::empty() && (forall|k: Seq<char>|
                    old(self).spaces().contains_key(k) && k != nsp@ ==> final(self).spaces().contains_key(k) && final(self).spaces()[k] == old(self).spaces()[k]),
                Err(RegistryError::InvalidName(e)) => name_error_of(nsp@) == Some(e) && *final(self)
                    == *old(self),
                Err(RegistryError::DuplicateNamespace) => name_error_of(nsp@) is None && old(self).spaces().contains_key(nsp@) && *final(self) == *old(self),
            },
    {
        let name = match NamespaceName::try_new(nsp) {
            Ok(n) => n,
            Err(e) => {
                return Err(RegistryError::InvalidName(e));
            },
        };
        if self.nsp_adaptor_map.contains_key(nsp) {
            return Err(RegistryError::DuplicateNamespace);
        }
        let namespace = Namespace::new(name);
        self.nsp_adaptor_map.insert(nsp, namespace);
        proof {
            assert(final(self).spaces().dom() =~= old(self).spaces().dom().insert(nsp@));
        }
        Ok(())
    }

    /// The namespace registered under `nsp`, if any; callers handle
    /// absence.
    pub fn get_adaptor(&self, nsp: &str) -> (r: Option<&Namespace<A>>)
        requires
            self.wf(),
        ensures
            match r {
                Some(ns) => self.spaces().contains_key(nsp@) && *ns == self.spaces()[nsp@]
                    && ns.wf(),
                None => !self.spaces().contains_key(nsp@),
            },
    {
        self.nsp_adaptor_map.get(nsp)
    }

    /// Registers a connection into the namespace under `nsp`; `false` and
    /// no change when no such namespace exists.
    pub fn add_socket(&mut self, nsp: &str, id: &str, socket_addr: A) -> (r: bool)
        requires
            old(self).wf(),
        ensures
            final(self).wf(),
            r == old(self).spaces().contains_key(nsp@),
            !r ==> *final(self) == *old(self),
            r ==> final(self).spaces().dom() == old(self).spaces().dom() && (forall|k: Seq<char>|
                old(self).spaces().contains_key(k) && k != nsp@ ==> final(self).spaces()[k] == old(self).spaces()[k]) && final(self).spaces()[nsp@].name_view()
                == old(self).spaces()[nsp@].name_view() && final(self).spaces()[nsp@].handles()
                == old(self).spaces()[nsp@].handles().insert(id@, socket_addr) && final(self).spaces()[nsp@].rooms_view() == join_effect(
                old(self).spaces()[nsp@].rooms_view(),
                id@,
                id@,
            ),
    {
        match self.nsp_adaptor_map.remove(nsp) {
            Some(mut ns) => {
                ns.add_socket(id, socket_addr);
                self.nsp_adaptor_map.insert(nsp, ns);
                proof {
                    assert(final(self).spaces() =~= old(self).spaces().insert(nsp@, ns));
                    assert(final(self).spaces().dom() =~= old(self).spaces().dom());
                }
                true
            },
            None => {
                proof {
                    assert(self.nsp_adaptor_map@ =~= old(self).spaces());
                    assert(self.nsp_adaptor_map == old(self).nsp_adaptor_map);
                }
                false
            },
        }
    }

    /// Deregisters a connection from the namespace under `nsp`; `false`
    /// and no change when no such namespace exists.
    pub fn remove_socket(&mut self, nsp: &str, id: &str) -> (r: bool)
        requires
            old(self).wf(),
        ensures
            final(self).wf(),
            r == old(self).spaces().contains_key(nsp@),
            !r ==> *final(self) == *old(self),
            r ==> final(self).spaces().dom() == old(self).spaces().dom() && (forall|k: Seq<char>|
                old(self).spaces().contains_key(k) && k != nsp@ ==> final(self).spaces()[k] == old(self).spaces()[k]) && final(self).spaces()[nsp@].name_view()
                == old(self).spaces()[nsp@].name_view() && final(self).spaces()[nsp@].handles()
                == old(self).spaces()[nsp@].handles().remove(id@) && final(self).spaces()[nsp@].rooms_view() == remove_all_effect(
                old(self).spaces()[nsp@].rooms_view(),
                id@,
            ),
    {
        match self.nsp_adaptor_map.remove(nsp) {
            Some(mut ns) => {
                ns.remove_socket(id);
                self.nsp_adaptor_map.insert(nsp, ns);
                proof {
                    assert(final(self).spaces() =~= old(self).spaces().insert(nsp@, ns));
                    assert(final(self).spaces().dom() =~= old(self).spaces().dom());
                }
                true
            },
            None => {
                proof {
                    assert(self.nsp_adaptor_map@ =~= old(self).spaces());
                    assert(self.nsp_adaptor_map == old(self).nsp_adaptor_map);
                }
                false
            },
        }
    }

    /// Joins a connection to a room of the namespace under `nsp`;
    /// `false` and no change when no such namespace exists.
    pub fn join_room(&mut self, nsp: &str, id: &str, room_id: &str) -> (r: bool)
        requires
            old(self).wf(),
        ensures
            final(self).wf(),
            r == old(self).spaces().contains_key(nsp@),
            !r ==> *final(self) == *old(self),
            r ==> final(self).spaces().dom() == old(self).spaces().dom() && (forall|k: Seq<char>|
                old(self).spaces().contains_key(k) && k != nsp@ ==> final(self).spaces()[k] == old(self).spaces()[k]) && final(self).spaces()[nsp@].name_view()
                == old(self).spaces()[nsp@].name_view() && final(self).spaces()[nsp@].handles()
                == old(self).spaces()[nsp@].handles() && final(self).spaces()[nsp@].rooms_view()
                == join_effect(old(self).spaces()[nsp@].rooms_view(), id@, room_id@),
    {
        match self.nsp_adaptor_map.remove(nsp) {
            Some(mut ns) => {
                ns.join_room(id, room_id);
                self.nsp_adaptor_map.insert(nsp, ns);
                proof {
                    assert(final(self).spaces() =~= old(self).spaces().insert(nsp@, ns));
                    assert(final(self).spaces().dom() =~= old(self).spaces().dom());
                }
                true
            },
            None => {
                proof {
                    assert(self.nsp_adaptor_map@ =~= old(self).spaces());
                    assert(self.nsp_adaptor_map == old(self).nsp_adaptor_map);
                }
                false
            },
        }
    }

    /// Takes a connection out of a room of the namespace under `nsp`;
    /// `false` and no change when no such namespace exists.
    pub fn leave_room(&mut self, nsp: &str, id: &str, room_id: &str) -> (r: bool)
        requires
            old(self).wf(),
        ensures
            final(self).wf(),
            r == old(self).spaces().contains_key(nsp@),
            !r ==> *final(self) == *old(self),
            r ==> final(self).spaces().dom() == old(self).spaces().dom() && (forall|k: Seq<char>|
                old(self).spaces().contains_key(k) && k != nsp@ ==> final(self).spaces()[k] == old(self).spaces()[k]) && final(self).spaces()[nsp@].name_view()
                == old(self).spaces()[nsp@].name_view() && final(self).spaces()[nsp@].handles()
                == old(self).spaces()[nsp@].handles() && final(self).spaces()[nsp@].rooms_view()
                == leave_effect(old(self).spaces()[nsp@].rooms_view(), id@, room_id@),
    {
        match self.nsp_adaptor_map.remove(nsp) {
            Some(mut ns) => {
                ns.leave_room(id, room_id);
                self.nsp_adaptor_map.insert(nsp, ns);
                proof {
                    assert(final(self).spaces() =~= old(self).spaces().insert(nsp@, ns));
                    assert(final(self).spaces().dom() =~= old(self).spaces().dom());
                }
                true
            },
            None => {
                proof {
                    assert(self.nsp_adaptor_map@ =~= old(self).spaces());
                    assert(self.nsp_adaptor_map == old(self).nsp_adaptor_map);
                }
                false
            },
        }
    }
}

} // verus!
